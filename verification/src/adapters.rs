//! Energy adapters: uniform named wrappers around hardware plugins, and
//! the pure helpers that pair two readings into a session.

use vstd::prelude::*;
use crate::errors::{EnergyError, EnergyResult};
use crate::measurement::Measurement;
use crate::registry::HardwarePlugin;
use crate::session::{energy_delta_of, MeasurementSession};

verus! {

/// Base adapter: a stable source name wrapped around one plugin.
pub struct BaseAdapter {
    name: String,
    plugin: HardwarePlugin,
}

impl BaseAdapter {
    /// The adapter's stable name.
    pub closed spec fn spec_name(self) -> Seq<char> {
        self.name@
    }

    /// The wrapped plugin.
    pub closed spec fn spec_plugin(self) -> HardwarePlugin {
        self.plugin
    }

    /// The wrapped plugin is well-formed.
    pub open spec fn wf(self) -> bool {
        self.spec_plugin().wf()
    }

    /// Wrap a plugin under a stable name.
    pub fn new(name: &str, plugin: HardwarePlugin) -> (r: BaseAdapter)
        requires
            plugin.wf(),
        ensures
            r.spec_name() == name@,
            r.spec_plugin() == plugin,
            r.wf(),
    {
        BaseAdapter { name: String::from_str(name), plugin }
    }

    /// Elapsed nanoseconds between two readings taken from one
    /// monotonic clock, so the end reading never precedes the start.
    pub fn calculate_duration(start: &Measurement, end: &Measurement) -> (r: u64)
        requires
            end.timestamp_ns >= start.timestamp_ns,
        ensures
            r == end.timestamp_ns - start.timestamp_ns,
    {
        end.timestamp_ns - start.timestamp_ns
    }

    /// Signed energy delta between two readings, in microjoules.  The
    /// readings carry already-corrected cumulative values; counter
    /// wrap-around is corrected where the raw counters are decoded.
    pub fn calculate_energy_delta(start: &Measurement, end: &Measurement) -> (r: i64)
        requires
            start.valid(),
            end.valid(),
        ensures
            r == energy_delta_of(*start, *end),
    {
        (end.energy_uj as i64) - (start.energy_uj as i64)
    }

    /// Bundle a start and an end reading into a measurement session.
    pub fn create_session(start: Measurement, end: Measurement) -> (s: MeasurementSession)
        requires
            start.valid(),
            end.valid(),
        ensures
            s.start == start,
            s.end == end,
            s.wf(),
    {
        MeasurementSession::from_measurements(start, end)
    }

    /// The wrapped plugin.
    pub fn plugin(&self) -> (r: &HardwarePlugin)
        ensures
            r == self.spec_plugin(),
    {
        &self.plugin
    }

    /// The adapter's stable name.
    pub fn name(&self) -> (r: &String)
        ensures
            r@ == self.spec_name(),
    {
        &self.name
    }

    /// One snapshot read from the wrapped plugin, as a list of readings.
    /// A read failure is surfaced as a hardware error.
    fn read_one(&mut self) -> (r: EnergyResult<Vec<Measurement>>)
        requires
            old(self).wf(),
        ensures
            final(self).wf(),
            final(self).spec_name() == old(self).spec_name(),
            final(self).spec_plugin() == old(self).spec_plugin().spec_after_read(),
            r is Ok <==> old(self).spec_plugin().spec_read_ok(),
            r matches Ok(v) ==> v@.len() == 1 && old(self).spec_plugin().read_result_matches(
                v@[0],
            ),
            r matches Err(e) ==> e is HardwareError,
    {
        match self.plugin.get_measurement() {
            Ok(m) => {
                let mut v: Vec<Measurement> = Vec::new();
                v.push(m);
                Ok(v)
            },
            Err(e) => Err(EnergyError::HardwareError(e)),
        }
    }
}

/// Adapter presenting an Intel RAPL plugin as the source `intel_rapl`.
pub struct IntelRaplAdapter {
    pub base: BaseAdapter,
}

impl IntelRaplAdapter {
    /// Wrap a plugin as the source `intel_rapl`.
    pub fn new(plugin: HardwarePlugin) -> (r: IntelRaplAdapter)
        requires
            plugin.wf(),
        ensures
            r.base.spec_name() == "intel_rapl"@,
            r.base.spec_plugin() == plugin,
            r.base.wf(),
    {
        IntelRaplAdapter { base: BaseAdapter::new("intel_rapl", plugin) }
    }

    /// The adapter's stable name.
    pub fn name(&self) -> (r: &String)
        ensures
            r@ == self.base.spec_name(),
    {
        self.base.name()
    }

    /// Per-session setup; this adapter needs none, so this is an
    /// idempotent no-op.
    pub fn initialize(&mut self) -> (r: EnergyResult<()>)
        ensures
            r is Ok,
            *final(self) == *old(self),
    {
        Ok(())
    }

    /// Per-session teardown; this adapter needs none, so this is an
    /// idempotent no-op.
    pub fn shutdown(&mut self) -> (r: EnergyResult<()>)
        ensures
            r is Ok,
            *final(self) == *old(self),
    {
        Ok(())
    }

    /// One snapshot read from the wrapped plugin.
    pub fn read_measurements(&mut self) -> (r: EnergyResult<Vec<Measurement>>)
        requires
            old(self).base.wf(),
        ensures
            final(self).base.wf(),
            final(self).base.spec_name() == old(self).base.spec_name(),
            final(self).base.spec_plugin() == old(self).base.spec_plugin().spec_after_read(),
            r is Ok <==> old(self).base.spec_plugin().spec_read_ok(),
            r matches Ok(v) ==> v@.len() == 1 && old(
                self,
            ).base.spec_plugin().read_result_matches(v@[0]),
            r matches Err(e) ==> e is HardwareError,
    {
        self.base.read_one()
    }
}

/// Adapter presenting an ARM energy plugin as the source `arm_pmu`.
pub struct ArmPmuAdapter {
    pub base: BaseAdapter,
}

impl ArmPmuAdapter {
    /// Wrap a plugin as the source `arm_pmu`.
    pub fn new(plugin: HardwarePlugin) -> (r: ArmPmuAdapter)
        requires
            plugin.wf(),
        ensures
            r.base.spec_name() == "arm_pmu"@,
            r.base.spec_plugin() == plugin,
            r.base.wf(),
    {
        ArmPmuAdapter { base: BaseAdapter::new("arm_pmu", plugin) }
    }

    /// The adapter's stable name.
    pub fn name(&self) -> (r: &String)
        ensures
            r@ == self.base.spec_name(),
    {
        self.base.name()
    }

    /// Per-session setup; this adapter needs none, so this is an
    /// idempotent no-op.
    pub fn initialize(&mut self) -> (r: EnergyResult<()>)
        ensures
            r is Ok,
            *final(self) == *old(self),
    {
        Ok(())
    }

    /// Per-session teardown; this adapter needs none, so this is an
    /// idempotent no-op.
    pub fn shutdown(&mut self) -> (r: EnergyResult<()>)
        ensures
            r is Ok,
            *final(self) == *old(self),
    {
        Ok(())
    }

    /// One snapshot read from the wrapped plugin.
    pub fn read_measurements(&mut self) -> (r: EnergyResult<Vec<Measurement>>)
        requires
            old(self).base.wf(),
        ensures
            final(self).base.wf(),
            final(self).base.spec_name() == old(self).base.spec_name(),
            final(self).base.spec_plugin() == old(self).base.spec_plugin().spec_after_read(),
            r is Ok <==> old(self).base.spec_plugin().spec_read_ok(),
            r matches Ok(v) ==> v@.len() == 1 && old(
                self,
            ).base.spec_plugin().read_result_matches(v@[0]),
            r matches Err(e) ==> e is HardwareError,
    {
        self.base.read_one()
    }
}

/// Adapter presenting an NVIDIA GPU plugin as the source `nvidia_gpu`.
pub struct NvidiaGpuAdapter {
    pub base: BaseAdapter,
}

impl NvidiaGpuAdapter {
    /// Wrap a plugin as the source `nvidia_gpu`.
    pub fn new(plugin: HardwarePlugin) -> (r: NvidiaGpuAdapter)
        requires
            plugin.wf(),
        ensures
            r.base.spec_name() == "nvidia_gpu"@,
            r.base.spec_plugin() == plugin,
            r.base.wf(),
    {
        NvidiaGpuAdapter { base: BaseAdapter::new("nvidia_gpu", plugin) }
    }

    /// The adapter's stable name.
    pub fn name(&self) -> (r: &String)
        ensures
            r@ == self.base.spec_name(),
    {
        self.base.name()
    }

    /// Per-session setup; this adapter needs none, so this is an
    /// idempotent no-op.
    pub fn initialize(&mut self) -> (r: EnergyResult<()>)
        ensures
            r is Ok,
            *final(self) == *old(self),
    {
        Ok(())
    }

    /// Per-session teardown; this adapter needs none, so this is an
    /// idempotent no-op.
    pub fn shutdown(&mut self) -> (r: EnergyResult<()>)
        ensures
            r is Ok,
            *final(self) == *old(self),
    {
        Ok(())
    }

    /// One snapshot read from the wrapped plugin.
    pub fn read_measurements(&mut self) -> (r: EnergyResult<Vec<Measurement>>)
        requires
            old(self).base.wf(),
        ensures
            final(self).base.wf(),
            final(self).base.spec_name() == old(self).base.spec_name(),
            final(self).base.spec_plugin() == old(self).base.spec_plugin().spec_after_read(),
            r is Ok <==> old(self).base.spec_plugin().spec_read_ok(),
            r matches Ok(v) ==> v@.len() == 1 && old(
                self,
            ).base.spec_plugin().read_result_matches(v@[0]),
            r matches Err(e) ==> e is HardwareError,
    {
        self.base.read_one()
    }
}

} // verus!
