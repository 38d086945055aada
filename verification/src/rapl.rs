//! Register decoder for the x86 RAPL energy interface.
//!
//! RAPL exposes cumulative energy counters through model-specific
//! registers.  This module turns raw 64-bit register values into
//! calibrated microjoule readings: it unpacks the unit-scale exponents
//! from the power-unit register, converts counter values at the decoded
//! scale, and corrects deltas across the 32-bit counter's wrap-around.
//! Reading the privileged register file itself is I/O and lives with the
//! caller; everything here is pure computation on register values.

use vstd::prelude::*;
use vstd::arithmetic::power2::{
    pow2,
    lemma_pow2_pos,
    lemma_pow2_adds,
    lemma_pow2_strictly_increases,
    lemma2_to64,
    lemma2_to64_rest,
};
use vstd::bits::{lemma_u64_shl_is_mul, lemma_u64_pow2_no_overflow};
use crate::errors::HardwareError;
use crate::measurement::{Measurement, MAX_ENERGY_UJ};

verus! {

/// Logical address of the RAPL power-unit register.
pub const MSR_POWER_UNIT: u32 = 0x606;

/// Logical address of the RAPL package-energy register.
pub const MSR_PKG_ENERGY_STATUS: u32 = 0x611;

/// Logical address of the RAPL DRAM-energy register.
pub const MSR_DRAM_ENERGY_STATUS: u32 = 0x619;

/// Modulus of the 32-bit hardware energy counter.
pub const COUNTER_MODULUS: u64 = 0x1_0000_0000;

/// Power-unit exponent: bits 0..=3 of the power-unit register.
pub open spec fn power_unit_exp(raw: u64) -> u64 {
    raw & 0xF
}

/// Energy-unit exponent: bits 8..=12 of the power-unit register.
pub open spec fn energy_unit_exp(raw: u64) -> u64 {
    (raw >> 8) & 0x1F
}

/// Time-unit exponent: bits 16..=19 of the power-unit register.
pub open spec fn time_unit_exp(raw: u64) -> u64 {
    (raw >> 16) & 0xF
}

/// The unit-scale exponents decoded from the power-unit register.  Each
/// physical unit equals `1 / 2^exponent` of its base unit: watts for
/// power, joules for energy, seconds for time.
#[derive(Debug, Clone, Copy, PartialEq, Eq, Structural)]
pub struct RaplUnits {
    pub power_exp: u8,
    pub energy_exp: u8,
    pub time_exp: u8,
}

impl RaplUnits {
    /// Exponents within the width of their register fields.
    pub open spec fn valid(self) -> bool {
        &&& self.power_exp <= 0xF
        &&& self.energy_exp <= 0x1F
        &&& self.time_exp <= 0xF
    }
}

/// Unpack the three unit-scale exponents from a raw power-unit register
/// value.
pub fn decode_power_unit(raw: u64) -> (units: RaplUnits)
    ensures
        units.power_exp == power_unit_exp(raw),
        units.energy_exp == energy_unit_exp(raw),
        units.time_exp == time_unit_exp(raw),
        units.valid(),
{
    proof {
        assert(raw & 0xF <= 0xF) by (bit_vector);
        assert((raw >> 8) & 0x1F <= 0x1F) by (bit_vector);
        assert((raw >> 16) & 0xF <= 0xF) by (bit_vector);
    }
    RaplUnits {
        power_exp: (raw & 0xF) as u8,
        energy_exp: ((raw >> 8) & 0x1F) as u8,
        time_exp: ((raw >> 16) & 0xF) as u8,
    }
}

/// `2^exp` for an exponent below the word width.
fn pow2_u64(exp: u8) -> (r: u64)
    requires
        exp < 64,
    ensures
        r == pow2(exp as nat),
{
    proof {
        lemma_u64_pow2_no_overflow(exp as nat);
        lemma_u64_shl_is_mul(1u64, exp as u64);
    }
    1u64 << (exp as u64)
}

/// The delta of two successive raw counter readings, corrected for
/// wrap-around of the 32-bit counter.
pub open spec fn corrected_delta_spec(earlier: int, later: int) -> int {
    if later >= earlier {
        later - earlier
    } else {
        later + COUNTER_MODULUS - earlier
    }
}

/// Compute the energy-counter delta between two raw readings.  When the
/// later reading is numerically smaller than the earlier one the counter
/// has wrapped, and the counter modulus is added back before
/// subtracting, so the delta is never negative.
pub fn corrected_counter_delta(earlier: u64, later: u64) -> (delta: u64)
    requires
        earlier < COUNTER_MODULUS,
        later < COUNTER_MODULUS,
    ensures
        delta == corrected_delta_spec(earlier as int, later as int),
        delta < COUNTER_MODULUS,
{
    if later >= earlier {
        later - earlier
    } else {
        later + COUNTER_MODULUS - earlier
    }
}

/// The microjoules represented by a raw counter value at a given
/// energy-unit exponent: `raw / 2^exp` joules, scaled to microjoules and
/// rounded down.
pub open spec fn microjoules_of_raw(raw: int, exp: nat) -> int {
    (raw * 1_000_000) / (pow2(exp) as int)
}

/// Convert a raw energy-counter value into microjoules at the decoded
/// unit scale.
pub fn raw_energy_to_microjoules(raw: u64, energy_exp: u8) -> (uj: u64)
    requires
        raw < COUNTER_MODULUS,
        energy_exp <= 0x1F,
    ensures
        uj == microjoules_of_raw(raw as int, energy_exp as nat),
        uj <= MAX_ENERGY_UJ,
{
    proof {
        lemma_pow2_pos(energy_exp as nat);
        lemma2_to64();
        assert(raw * 1_000_000 <= 0xFFFF_FFFFu64 * 1_000_000) by (nonlinear_arith)
            requires
                raw <= 0xFFFF_FFFFu64,
        ;
    }
    let scaled: u64 = raw * 1_000_000;
    let divisor: u64 = pow2_u64(energy_exp);
    let uj: u64 = scaled / divisor;
    proof {
        assert(scaled / divisor <= scaled) by (nonlinear_arith)
            requires
                divisor >= 1,
        ;
    }
    uj
}

/// A little-endian byte sequence read as an unsigned integer.
pub open spec fn le_value_of(s: Seq<u8>) -> int
    decreases s.len(),
{
    if s.len() == 0 {
        0
    } else {
        s[0] + 256 * le_value_of(s.skip(1))
    }
}

/// Parse one 8-byte little-endian register value, as the privileged
/// register file delivers it.  A buffer of any other length is the
/// malformed-read failure mode.
pub fn register_value_from_bytes(bytes: &[u8]) -> (r: Result<u64, HardwareError>)
    ensures
        bytes@.len() == 8 <==> r is Ok,
        r matches Ok(v) ==> v == le_value_of(bytes@),
        r matches Err(e) ==> e is SensorError,
{
    if bytes.len() != 8 {
        return Err(HardwareError::SensorError(String::from_str("truncated register read")));
    }
    let mut value: u64 = 0;
    let mut i: usize = 8;
    proof {
        assert(bytes@.skip(8) =~= Seq::<u8>::empty());
        lemma2_to64();
    }
    while i > 0
        invariant
            i <= 8,
            bytes@.len() == 8,
            value == le_value_of(bytes@.skip(i as int)),
            value < pow2((8 * (8 - i)) as nat),
        decreases i,
    {
        proof {
            lemma_pow2_adds((8 * (8 - i)) as nat, 8);
            lemma2_to64();
            lemma2_to64_rest();
            if 8 * (8 - i) < 56 {
                lemma_pow2_strictly_increases((8 * (8 - i)) as nat, 56);
            }
            assert(bytes@.skip(i - 1 as int).skip(1) =~= bytes@.skip(i as int));
        }
        let b = bytes[i - 1];
        value = value * 256 + (b as u64);
        i = i - 1;
    }
    proof {
        assert(bytes@.skip(0) =~= bytes@);
    }
    Ok(value)
}

/// The RAPL energy-measurement plugin: unit-scale calibration cached at
/// initialization, an advisory start/stop state guard, and decoding of
/// package and DRAM energy counters into `Measurement`s.
///
/// The plugin itself never touches the privileged register file; the
/// caller reads raw register values (for instance through
/// `register_value_from_bytes`) and hands them to
/// `initialize_with_power_unit` and `measurement_from_registers`.
#[derive(Debug)]
pub struct IntelRAPLPlugin {
    pub msr_path: String,
    pub units: Option<RaplUnits>,
    pub measuring: bool,
}

impl IntelRAPLPlugin {
    /// Decoded unit exponents, if any, lie within their register fields.
    pub open spec fn wf(self) -> bool {
        self.units matches Some(u) ==> u.valid()
    }

    /// A plugin that is not yet calibrated and not measuring, addressing
    /// the default privileged register file.
    pub fn new() -> (r: IntelRAPLPlugin)
        ensures
            r.msr_path@ == "/dev/cpu/0/msr"@,
            r.units is None,
            !r.measuring,
            r.wf(),
    {
        IntelRAPLPlugin {
            msr_path: String::from_str("/dev/cpu/0/msr"),
            units: None,
            measuring: false,
        }
    }

    /// Stable identifier of this source.
    pub fn name(&self) -> (r: &'static str)
        ensures
            r@ == "intel_rapl"@,
    {
        "intel_rapl"
    }

    /// Human-readable description of this source.
    pub fn description(&self) -> (r: &'static str)
        ensures
            r@ == "Intel RAPL (Running Average Power Limit) energy measurement plugin"@,
    {
        "Intel RAPL (Running Average Power Limit) energy measurement plugin"
    }

    /// Metric names advertised by this source.  Values for both are
    /// reported in microjoules and microwatts respectively.
    pub fn supported_metrics(&self) -> (r: Vec<&'static str>)
        ensures
            r@.len() == 2,
            r@[0]@ == "power_watts"@,
            r@[1]@ == "dram_energy_joules"@,
    {
        let mut v: Vec<&'static str> = Vec::new();
        v.push("power_watts");
        v.push("dram_energy_joules");
        v
    }

    /// One-time calibration: decode and cache the unit-scale exponents
    /// from a raw power-unit register value.  Idempotent: a second call
    /// simply decodes again.
    pub fn initialize_with_power_unit(&mut self, power_unit_raw: u64)
        ensures
            final(self).units == Some(
                RaplUnits {
                    power_exp: power_unit_exp(power_unit_raw) as u8,
                    energy_exp: energy_unit_exp(power_unit_raw) as u8,
                    time_exp: time_unit_exp(power_unit_raw) as u8,
                },
            ),
            final(self).measuring == old(self).measuring,
            final(self).msr_path@ == old(self).msr_path@,
            final(self).wf(),
    {
        let units = decode_power_unit(power_unit_raw);
        self.units = Some(units);
    }

    /// Begin an explicit measurement bracket.  Starting while a
    /// measurement is already in progress is out of the permitted state
    /// sequence and fails, leaving the plugin unchanged.
    pub fn start_measurement(&mut self) -> (r: Result<(), HardwareError>)
        ensures
            final(self).units == old(self).units,
            final(self).msr_path@ == old(self).msr_path@,
            old(self).measuring ==> {
                &&& r matches Err(e) && e is UnsupportedOperation
                &&& final(self).measuring
            },
            !old(self).measuring ==> r is Ok && final(self).measuring,
    {
        if self.measuring {
            return Err(
                HardwareError::UnsupportedOperation(
                    String::from_str("Measurement already in progress"),
                ),
            );
        }
        self.measuring = true;
        Ok(())
    }

    /// End an explicit measurement bracket.  Stopping without a prior
    /// start is out of the permitted state sequence and fails, leaving
    /// the plugin unchanged.
    pub fn stop_measurement(&mut self) -> (r: Result<(), HardwareError>)
        ensures
            final(self).units == old(self).units,
            final(self).msr_path@ == old(self).msr_path@,
            !old(self).measuring ==> {
                &&& r matches Err(e) && e is UnsupportedOperation
                &&& !final(self).measuring
            },
            old(self).measuring ==> r is Ok && !final(self).measuring,
    {
        if !self.measuring {
            return Err(
                HardwareError::UnsupportedOperation(
                    String::from_str("No measurement in progress"),
                ),
            );
        }
        self.measuring = false;
        Ok(())
    }

    /// Decode one snapshot from raw package-energy and DRAM-energy
    /// register values at the cached unit scale.  Only the low 32 bits
    /// of each register carry the counter.  Fails when the plugin has
    /// not been calibrated yet.
    pub fn measurement_from_registers(
        &self,
        pkg_raw: u64,
        dram_raw: u64,
        timestamp_ns: u64,
    ) -> (r: Result<Measurement, HardwareError>)
        requires
            self.wf(),
        ensures
            self.units is Some <==> r is Ok,
            self.units is None ==> (r matches Err(e) && e is UnsupportedOperation),
            r matches Ok(m) ==> {
                &&& self.units matches Some(u)
                &&& m.timestamp_ns == timestamp_ns
                &&& m.source@ == "intel_rapl"@
                &&& m.energy_uj == microjoules_of_raw(
                    (pkg_raw & 0xFFFF_FFFF) as int,
                    u.energy_exp as nat,
                )
                &&& m.power_uw == 0
                &&& m.extra_metrics@.len() == 1
                &&& m.extra_metrics@[0].0@ == "dram_energy_joules"@
                &&& m.extra_metrics@[0].1 == microjoules_of_raw(
                    (dram_raw & 0xFFFF_FFFF) as int,
                    u.energy_exp as nat,
                )
                &&& m.valid()
            },
    {
        let units = match &self.units {
            Some(u) => *u,
            None => {
                return Err(
                    HardwareError::UnsupportedOperation(
                        String::from_str("Plugin is not calibrated"),
                    ),
                );
            },
        };
        proof {
            assert(pkg_raw & 0xFFFF_FFFF < 0x1_0000_0000) by (bit_vector);
            assert(dram_raw & 0xFFFF_FFFF < 0x1_0000_0000) by (bit_vector);
        }
        let pkg_counter = pkg_raw & 0xFFFF_FFFF;
        let dram_counter = dram_raw & 0xFFFF_FFFF;
        let energy_uj = raw_energy_to_microjoules(pkg_counter, units.energy_exp);
        let dram_uj = raw_energy_to_microjoules(dram_counter, units.energy_exp);
        let mut extra_metrics: Vec<(String, u64)> = Vec::new();
        extra_metrics.push((String::from_str("dram_energy_joules"), dram_uj));
        Ok(
            Measurement {
                timestamp_ns,
                source: String::from_str("intel_rapl"),
                energy_uj,
                power_uw: 0,
                extra_metrics,
            },
        )
    }
}

} // verus!
