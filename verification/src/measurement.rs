//! The `Measurement` data type: one point-in-time reading from one source.

use vstd::prelude::*;

verus! {

/// Upper bound on the energy carried by a single reading, in microjoules.
///
/// Hardware counters decoded by this library never exceed this value (a
/// 32-bit counter at the finest unit scale stays below 2^52 microjoules),
/// and capping single readings here keeps every aggregate the engine
/// computes exactly representable in the machine integers it uses.
pub const MAX_ENERGY_UJ: u64 = 0x20_0000_0000_0000;

/// The numeric value of the energy cap, for reasoning in other modules.
pub proof fn lemma_max_energy_value()
    ensures
        MAX_ENERGY_UJ == 0x20_0000_0000_0000,
{
}

/// One immutable snapshot read from one energy source.
///
/// `timestamp_ns` is a point on a monotonic clock in nanoseconds,
/// `energy_uj` a cumulative or instantaneous energy reading in
/// microjoules, `power_uw` a derived or directly sampled power in
/// microwatts, and `extra_metrics` a list of named auxiliary readings
/// (for example a DRAM sub-rail energy), each in microjoules or the
/// metric's natural integer unit.
#[derive(Debug)]
pub struct Measurement {
    pub timestamp_ns: u64,
    pub source: String,
    pub energy_uj: u64,
    pub power_uw: u64,
    pub extra_metrics: Vec<(String, u64)>,
}

/// Two measurements that agree on every observable field.
pub open spec fn same_measurement(a: Measurement, b: Measurement) -> bool {
    &&& a.timestamp_ns == b.timestamp_ns
    &&& a.source@ == b.source@
    &&& a.energy_uj == b.energy_uj
    &&& a.power_uw == b.power_uw
    &&& a.extra_metrics@ == b.extra_metrics@
}

impl Measurement {
    /// A reading whose energy respects the engine-wide cap.
    pub open spec fn valid(self) -> bool {
        self.energy_uj <= MAX_ENERGY_UJ
    }

    /// Create a reading.  The energy must respect the engine-wide cap,
    /// which every decoded hardware counter does.
    pub fn new(
        timestamp_ns: u64,
        source: String,
        energy_uj: u64,
        power_uw: u64,
        extra_metrics: Vec<(String, u64)>,
    ) -> (r: Measurement)
        requires
            energy_uj <= MAX_ENERGY_UJ,
        ensures
            r.timestamp_ns == timestamp_ns,
            r.source@ == source@,
            r.energy_uj == energy_uj,
            r.power_uw == power_uw,
            r.extra_metrics@ == extra_metrics@,
            r.valid(),
    {
        Measurement { timestamp_ns, source, energy_uj, power_uw, extra_metrics }
    }
}

/// Copy a list of named auxiliary readings.
fn clone_metrics(v: &Vec<(String, u64)>) -> (r: Vec<(String, u64)>)
    ensures
        r@ == v@,
{
    let mut out: Vec<(String, u64)> = Vec::new();
    let mut i: usize = 0;
    while i < v.len()
        invariant
            i <= v.len(),
            out@ == v@.take(i as int),
        decreases v.len() - i,
    {
        let name = v[i].0.clone();
        let value = v[i].1;
        out.push((name, value));
        proof {
            assert(out@ =~= v@.take(i + 1 as int));
        }
        i = i + 1;
    }
    proof {
        assert(out@ =~= v@);
    }
    out
}

impl Clone for Measurement {
    /// A clone observably equal to the original reading.
    fn clone(&self) -> (r: Self)
        ensures
            same_measurement(r, *self),
    {
        Measurement {
            timestamp_ns: self.timestamp_ns,
            source: self.source.clone(),
            energy_uj: self.energy_uj,
            power_uw: self.power_uw,
            extra_metrics: clone_metrics(&self.extra_metrics),
        }
    }
}

} // verus!
