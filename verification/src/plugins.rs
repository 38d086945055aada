//! Hardware plugins: the capability interface over physically distinct
//! energy sources, and the compiled-in set of plugin variants.

use vstd::prelude::*;
use crate::errors::{HardwareError, HardwarePluginError};
use crate::measurement::Measurement;

verus! {

/// Static identity of a plugin.
#[derive(Debug)]
pub struct PluginMetadata {
    pub name: String,
    pub version: String,
    pub description: String,
    pub author: String,
}

/// Common configuration shared by all hardware plugins.
#[derive(Debug)]
pub struct PluginConfig {
    pub sampling_interval_ms: u64,
    pub enabled_sources: Vec<String>,
    pub log_level: String,
}

impl Default for PluginConfig {
    /// A one-second sampling interval, no source filter, and the
    /// default log level.
    fn default() -> (r: PluginConfig)
        ensures
            r.sampling_interval_ms == 1000,
            r.enabled_sources@.len() == 0,
            r.log_level@ == "info"@,
    {
        PluginConfig {
            sampling_interval_ms: 1000,
            enabled_sources: Vec::new(),
            log_level: String::from_str("info"),
        }
    }
}

/// State shared by the plugin variants: identity, an enabled flag and
/// the path of the backing device interface.
#[derive(Debug)]
pub struct BasePlugin {
    name: String,
    description: String,
    enabled: bool,
    device_path: String,
}

impl BasePlugin {
    /// The plugin's stable identifier.
    pub closed spec fn spec_name(self) -> Seq<char> {
        self.name@
    }

    /// The plugin's description.
    pub closed spec fn spec_description(self) -> Seq<char> {
        self.description@
    }

    /// Whether the plugin is enabled.
    pub closed spec fn spec_enabled(self) -> bool {
        self.enabled
    }

    /// The backing device path.
    pub closed spec fn spec_device_path(self) -> Seq<char> {
        self.device_path@
    }

    /// A plugin base with the given identity, enabled.
    pub fn new(name: &str, description: &str, device_path: String) -> (r: BasePlugin)
        ensures
            r.spec_name() == name@,
            r.spec_description() == description@,
            r.spec_enabled(),
            r.spec_device_path() == device_path@,
    {
        BasePlugin {
            name: String::from_str(name),
            description: String::from_str(description),
            enabled: true,
            device_path,
        }
    }

    /// The plugin's stable identifier.
    pub fn name(&self) -> (r: &String)
        ensures
            r@ == self.spec_name(),
    {
        &self.name
    }

    /// The plugin's description.
    pub fn description(&self) -> (r: &String)
        ensures
            r@ == self.spec_description(),
    {
        &self.description
    }

    /// Whether the plugin is enabled.
    pub fn is_enabled(&self) -> (r: bool)
        ensures
            r == self.spec_enabled(),
    {
        self.enabled
    }

    /// The backing device path.
    pub fn device_path(&self) -> (r: &String)
        ensures
            r@ == self.spec_device_path(),
    {
        &self.device_path
    }
}

/// The shared shape of the compiled-in plugin variants: each exposes
/// its common state and its own hardware-support probe.
pub trait DefaultPluginImpl {
    /// The plugin's common state.
    fn base(&self) -> &BasePlugin;

    /// Whether the backing hardware is supported on this machine.
    fn is_supported(&self) -> bool;
}

/// Intel RAPL (Running Average Power Limit) plugin.
#[derive(Debug)]
pub struct IntelRaplPlugin {
    pub base: BasePlugin,
}

impl IntelRaplPlugin {
    /// An enabled RAPL plugin addressing the powercap interface.
    pub fn new() -> (r: Result<IntelRaplPlugin, HardwareError>)
        ensures
            r matches Ok(p) && p.base.spec_name() == "intel-rapl"@ && p.base.spec_enabled(),
    {
        Ok(
            IntelRaplPlugin {
                base: BasePlugin::new(
                    "intel-rapl",
                    "Intel RAPL energy monitoring plugin",
                    String::from_str("/sys/class/powercap/intel-rapl"),
                ),
            },
        )
    }

    /// Readings from this backend; discovery is not wired to a hardware
    /// probe, so none are reported.
    pub fn read_measurements(&self) -> (r: Result<Vec<Measurement>, HardwarePluginError>)
        ensures
            r matches Ok(v) && v@.len() == 0,
    {
        Ok(Vec::new())
    }
}

impl DefaultPluginImpl for IntelRaplPlugin {
    fn base(&self) -> &BasePlugin {
        &self.base
    }

    fn is_supported(&self) -> bool {
        is_rapl_available()
    }
}

/// Whether Intel RAPL is available on this machine.  Detection is not
/// wired to a hardware probe, so the answer is always no.
pub fn is_rapl_available() -> (r: bool)
    ensures
        !r,
{
    false
}

/// AMD energy-monitoring plugin.
#[derive(Debug)]
pub struct AmdEnergyPlugin {
    pub base: BasePlugin,
}

impl AmdEnergyPlugin {
    /// An enabled AMD energy plugin addressing the powercap interface.
    pub fn new() -> (r: Result<AmdEnergyPlugin, HardwareError>)
        ensures
            r matches Ok(p) && p.base.spec_name() == "amd-energy"@ && p.base.spec_enabled(),
    {
        Ok(
            AmdEnergyPlugin {
                base: BasePlugin::new(
                    "amd-energy",
                    "AMD energy monitoring plugin",
                    String::from_str("/sys/class/powercap/amd-energy"),
                ),
            },
        )
    }

    /// Readings from this backend; discovery is not wired to a hardware
    /// probe, so none are reported.
    pub fn read_measurements(&self) -> (r: Result<Vec<Measurement>, HardwareError>)
        ensures
            r matches Ok(v) && v@.len() == 0,
    {
        Ok(Vec::new())
    }
}

impl DefaultPluginImpl for AmdEnergyPlugin {
    fn base(&self) -> &BasePlugin {
        &self.base
    }

    fn is_supported(&self) -> bool {
        is_amd_energy_available()
    }
}

/// Whether AMD energy monitoring is available on this machine.
/// Detection is not wired to a hardware probe, so the answer is always
/// no.
pub fn is_amd_energy_available() -> (r: bool)
    ensures
        !r,
{
    false
}

/// ARM energy-monitoring plugin.
#[derive(Debug)]
pub struct ArmEnergyPlugin {
    pub base: BasePlugin,
}

impl ArmEnergyPlugin {
    /// An enabled ARM energy plugin addressing the powercap interface.
    pub fn new() -> (r: Result<ArmEnergyPlugin, HardwareError>)
        ensures
            r matches Ok(p) && p.base.spec_name() == "arm-energy"@ && p.base.spec_enabled(),
    {
        Ok(
            ArmEnergyPlugin {
                base: BasePlugin::new(
                    "arm-energy",
                    "ARM energy monitoring plugin",
                    String::from_str("/sys/class/powercap/arm-energy"),
                ),
            },
        )
    }

    /// Readings from this backend; discovery is not wired to a hardware
    /// probe, so none are reported.
    pub fn read_measurements(&self) -> (r: Result<Vec<Measurement>, HardwarePluginError>)
        ensures
            r matches Ok(v) && v@.len() == 0,
    {
        Ok(Vec::new())
    }
}

impl DefaultPluginImpl for ArmEnergyPlugin {
    fn base(&self) -> &BasePlugin {
        &self.base
    }

    fn is_supported(&self) -> bool {
        is_arm_energy_available()
    }
}

/// Whether ARM energy monitoring is available on this machine.
/// Detection is not wired to a hardware probe, so the answer is always
/// no.
pub fn is_arm_energy_available() -> (r: bool)
    ensures
        !r,
{
    false
}

/// NVIDIA GPU energy-monitoring plugin.
#[derive(Debug)]
pub struct NvidiaGpuPlugin {
    pub base: BasePlugin,
}

impl NvidiaGpuPlugin {
    /// An enabled NVIDIA GPU plugin addressing the card's power
    /// interface.
    pub fn new() -> (r: Result<NvidiaGpuPlugin, HardwareError>)
        ensures
            r matches Ok(p) && p.base.spec_name() == "nvidia-gpu"@ && p.base.spec_enabled(),
    {
        Ok(
            NvidiaGpuPlugin {
                base: BasePlugin::new(
                    "nvidia-gpu",
                    "NVIDIA GPU energy monitoring plugin",
                    String::from_str("/sys/class/drm/card0/device/power"),
                ),
            },
        )
    }
}

impl DefaultPluginImpl for NvidiaGpuPlugin {
    fn base(&self) -> &BasePlugin {
        &self.base
    }

    fn is_supported(&self) -> bool {
        is_nvidia_gpu_available()
    }
}

/// Whether an NVIDIA GPU is available on this machine.  Detection is
/// not wired to a hardware probe, so the answer is always no.
pub fn is_nvidia_gpu_available() -> (r: bool)
    ensures
        !r,
{
    false
}

/// Set up the hardware plugin machinery.  The compiled-in plugins need
/// no global preparation, so this never fails.
pub fn init() -> (r: Result<(), HardwarePluginError>)
    ensures
        r is Ok,
{
    Ok(())
}

/// Names of dynamically discovered plugins.  Discovery of plugins
/// beyond the compiled-in set is not supported, so the list is empty.
pub fn get_available_plugins() -> (r: Vec<String>)
    ensures
        r@.len() == 0,
{
    Vec::new()
}

/// An externally supplied energy source with scripted behaviour, for
/// tests and for future hardware backends: a fixed identity, a
/// controllable availability flag, and a queue of readings that
/// `get_measurement` consumes in order.
#[derive(Debug)]
pub struct SimulatedPlugin {
    pub name: String,
    pub description: String,
    pub available: bool,
    pub readings: Vec<Measurement>,
    pub next: usize,
    pub measuring: bool,
}

impl SimulatedPlugin {
    /// Readings not yet consumed are capped and stem from this source.
    pub open spec fn wf(self) -> bool {
        forall|i: int|
            0 <= i < self.readings@.len() ==> (#[trigger] self.readings@[i]).valid()
                && self.readings@[i].source@ == self.name@
    }

    /// Whether another scripted reading remains.
    pub open spec fn has_reading(self) -> bool {
        self.next < self.readings@.len()
    }

    /// An available source that will deliver the given readings in
    /// order.
    pub fn new(name: String, available: bool, readings: Vec<Measurement>) -> (r: SimulatedPlugin)
        requires
            forall|i: int|
                0 <= i < readings@.len() ==> (#[trigger] readings@[i]).valid()
                    && readings@[i].source@ == name@,
        ensures
            r.name@ == name@,
            r.available == available,
            r.readings@ == readings@,
            r.next == 0,
            !r.measuring,
            r.wf(),
    {
        SimulatedPlugin {
            name,
            description: String::from_str("Simulated energy source"),
            available,
            readings,
            next: 0,
            measuring: false,
        }
    }

    /// Begin an explicit measurement bracket.  Starting while a
    /// measurement is already in progress is out of the permitted state
    /// sequence and fails, leaving the plugin unchanged.
    pub fn start_measurement(&mut self) -> (r: Result<(), HardwareError>)
        ensures
            final(self).name == old(self).name,
            final(self).description == old(self).description,
            final(self).available == old(self).available,
            final(self).readings == old(self).readings,
            final(self).next == old(self).next,
            old(self).measuring ==> {
                &&& (r matches Err(e) && e is UnsupportedOperation)
                &&& final(self).measuring
            },
            !old(self).measuring ==> r is Ok && final(self).measuring,
    {
        if self.measuring {
            return Err(
                HardwareError::UnsupportedOperation(
                    String::from_str("Measurement already in progress"),
                ),
            );
        }
        self.measuring = true;
        Ok(())
    }

    /// End an explicit measurement bracket.  Stopping without a prior
    /// start is out of the permitted state sequence and fails, leaving
    /// the plugin unchanged.
    pub fn stop_measurement(&mut self) -> (r: Result<(), HardwareError>)
        ensures
            final(self).name == old(self).name,
            final(self).description == old(self).description,
            final(self).available == old(self).available,
            final(self).readings == old(self).readings,
            final(self).next == old(self).next,
            !old(self).measuring ==> {
                &&& (r matches Err(e) && e is UnsupportedOperation)
                &&& !final(self).measuring
            },
            old(self).measuring ==> r is Ok && !final(self).measuring,
    {
        if !self.measuring {
            return Err(
                HardwareError::UnsupportedOperation(
                    String::from_str("No measurement in progress"),
                ),
            );
        }
        self.measuring = false;
        Ok(())
    }

    /// The next scripted reading; consuming it advances the queue.
    /// When the queue is exhausted the read fails like a sensor whose
    /// data has gone bad.
    pub fn get_measurement(&mut self) -> (r: Result<Measurement, HardwareError>)
        requires
            old(self).wf(),
        ensures
            final(self).wf(),
            final(self).name == old(self).name,
            final(self).description == old(self).description,
            final(self).available == old(self).available,
            final(self).readings == old(self).readings,
            final(self).measuring == old(self).measuring,
            old(self).has_reading() ==> {
                &&& r matches Ok(m)
                &&& crate::measurement::same_measurement(
                    m,
                    old(self).readings@[old(self).next as int],
                )
                &&& final(self).next == old(self).next + 1
            },
            !old(self).has_reading() ==> {
                &&& (r matches Err(e) && e is SensorError)
                &&& final(self).next == old(self).next
            },
    {
        if self.next < self.readings.len() {
            let m = self.readings[self.next].clone();
            self.next = self.next + 1;
            Ok(m)
        } else {
            Err(HardwareError::SensorError(String::from_str("no scripted reading left")))
        }
    }
}

} // verus!
