//! The closed set of compiled-in plugin variants and the registry that
//! owns them.

use vstd::prelude::*;
use crate::clock::now_timestamp_ns;
use crate::errors::HardwareError;
use crate::measurement::{Measurement, same_measurement};
use crate::plugins::{
    AmdEnergyPlugin,
    ArmEnergyPlugin,
    IntelRaplPlugin,
    NvidiaGpuPlugin,
    SimulatedPlugin,
};

verus! {

/// One energy source: a closed set of compiled-in variants, plus the
/// simulated variant through which externally supplied sources are
/// registered.
#[derive(Debug)]
pub enum HardwarePlugin {
    IntelRapl(IntelRaplPlugin),
    AmdEnergy(AmdEnergyPlugin),
    ArmEnergy(ArmEnergyPlugin),
    NvidiaGpu(NvidiaGpuPlugin),
    Simulated(SimulatedPlugin),
}

impl HardwarePlugin {
    /// The plugin's stable identifier.
    pub open spec fn spec_name(self) -> Seq<char> {
        match self {
            HardwarePlugin::IntelRapl(p) => p.base.spec_name(),
            HardwarePlugin::AmdEnergy(p) => p.base.spec_name(),
            HardwarePlugin::ArmEnergy(p) => p.base.spec_name(),
            HardwarePlugin::NvidiaGpu(p) => p.base.spec_name(),
            HardwarePlugin::Simulated(p) => p.name@,
        }
    }

    /// Whether the source is currently available.
    pub open spec fn spec_available(self) -> bool {
        match self {
            HardwarePlugin::IntelRapl(p) => p.base.spec_enabled(),
            HardwarePlugin::AmdEnergy(p) => p.base.spec_enabled(),
            HardwarePlugin::ArmEnergy(p) => p.base.spec_enabled(),
            HardwarePlugin::NvidiaGpu(p) => p.base.spec_enabled(),
            HardwarePlugin::Simulated(p) => p.available,
        }
    }

    /// A scripted source is well-formed; the compiled-in variants carry
    /// no further invariant.
    pub open spec fn wf(self) -> bool {
        match self {
            HardwarePlugin::Simulated(p) => p.wf(),
            _ => true,
        }
    }

    /// Whether a snapshot read of this source succeeds in its current
    /// state.
    pub open spec fn spec_read_ok(self) -> bool {
        match self {
            HardwarePlugin::Simulated(p) => p.has_reading(),
            _ => true,
        }
    }

    /// What a successful snapshot read delivers: the compiled-in
    /// variants report a zero reading under their own name (their
    /// discovery is not wired to a hardware probe), a scripted source
    /// its next scripted reading.  The timestamp of a zero reading is
    /// the wall clock's and is not pinned here.
    pub open spec fn read_result_matches(self, m: Measurement) -> bool {
        match self {
            HardwarePlugin::Simulated(p) => same_measurement(m, p.readings@[p.next as int]),
            _ => {
                &&& m.source@ == self.spec_name()
                &&& m.energy_uj == 0
                &&& m.power_uw == 0
                &&& m.extra_metrics@.len() == 0
            },
        }
    }

    /// The plugin's description.
    pub open spec fn spec_description(self) -> Seq<char> {
        match self {
            HardwarePlugin::IntelRapl(p) => p.base.spec_description(),
            HardwarePlugin::AmdEnergy(p) => p.base.spec_description(),
            HardwarePlugin::ArmEnergy(p) => p.base.spec_description(),
            HardwarePlugin::NvidiaGpu(p) => p.base.spec_description(),
            HardwarePlugin::Simulated(p) => p.description@,
        }
    }

    /// The plugin's state after one snapshot read: a scripted source
    /// consumes its next reading, everything else is untouched.
    pub open spec fn spec_after_read(self) -> HardwarePlugin {
        match self {
            HardwarePlugin::Simulated(p) => if p.has_reading() {
                HardwarePlugin::Simulated(SimulatedPlugin { next: (p.next + 1) as usize, ..p })
            } else {
                self
            },
            _ => self,
        }
    }

    /// The plugin's stable identifier.
    pub fn name(&self) -> (r: &String)
        ensures
            r@ == self.spec_name(),
    {
        match self {
            HardwarePlugin::IntelRapl(p) => p.base.name(),
            HardwarePlugin::AmdEnergy(p) => p.base.name(),
            HardwarePlugin::ArmEnergy(p) => p.base.name(),
            HardwarePlugin::NvidiaGpu(p) => p.base.name(),
            HardwarePlugin::Simulated(p) => &p.name,
        }
    }

    /// Human-readable description of the source.
    pub fn description(&self) -> (r: &String)
        ensures
            r@ == self.spec_description(),
    {
        match self {
            HardwarePlugin::IntelRapl(p) => p.base.description(),
            HardwarePlugin::AmdEnergy(p) => p.base.description(),
            HardwarePlugin::ArmEnergy(p) => p.base.description(),
            HardwarePlugin::NvidiaGpu(p) => p.base.description(),
            HardwarePlugin::Simulated(p) => &p.description,
        }
    }

    /// Cheap, synchronous availability check; no device is read.
    pub fn is_available(&self) -> (r: bool)
        ensures
            r == self.spec_available(),
    {
        match self {
            HardwarePlugin::IntelRapl(p) => p.base.is_enabled(),
            HardwarePlugin::AmdEnergy(p) => p.base.is_enabled(),
            HardwarePlugin::ArmEnergy(p) => p.base.is_enabled(),
            HardwarePlugin::NvidiaGpu(p) => p.base.is_enabled(),
            HardwarePlugin::Simulated(p) => p.available,
        }
    }

    /// One-time setup.  The compiled-in variants need none, so this
    /// never fails and changes nothing.
    pub fn initialize(&mut self) -> (r: Result<(), HardwareError>)
        ensures
            r is Ok,
            *final(self) == *old(self),
    {
        Ok(())
    }

    /// A stateless snapshot read.  Succeeds exactly when the source can
    /// deliver a reading in its current state; a failed read is a
    /// sensor error.
    pub fn get_measurement(&mut self) -> (r: Result<Measurement, HardwareError>)
        requires
            old(self).wf(),
        ensures
            final(self).wf(),
            *final(self) == old(self).spec_after_read(),
            r is Ok <==> old(self).spec_read_ok(),
            r matches Ok(m) ==> old(self).read_result_matches(m),
            r matches Err(e) ==> e is SensorError,
    {
        match self {
            HardwarePlugin::Simulated(p) => p.get_measurement(),
            _ => {
                let timestamp_ns = now_timestamp_ns();
                let name = self.name();
                Ok(
                    Measurement {
                        timestamp_ns,
                        source: name.clone(),
                        energy_uj: 0,
                        power_uw: 0,
                        extra_metrics: Vec::new(),
                    },
                )
            },
        }
    }

    /// Metric names advertised by this source.
    pub fn supported_metrics(&self) -> (r: Vec<&'static str>)
        ensures
            r@.len() == 2,
            r@[0]@ == "power"@,
            r@[1]@ == "energy"@,
    {
        let mut v: Vec<&'static str> = Vec::new();
        v.push("power");
        v.push("energy");
        v
    }
}

/// The available plugins among `s`, in registry order, in the state
/// they were in.
pub open spec fn available_of(s: Seq<HardwarePlugin>) -> Seq<HardwarePlugin>
    decreases s.len(),
{
    if s.len() == 0 {
        Seq::empty()
    } else {
        let rest = available_of(s.drop_last());
        if s.last().spec_available() {
            rest.push(s.last())
        } else {
            rest
        }
    }
}

/// Every plugin in an available-subset is available, and every
/// available plugin of the registry is in it.
pub proof fn lemma_available_of_complete(s: Seq<HardwarePlugin>)
    ensures
        forall|k: int|
            0 <= k < available_of(s).len() ==> (#[trigger] available_of(s)[k]).spec_available(),
        forall|i: int|
            0 <= i < s.len() && (#[trigger] s[i]).spec_available() ==> available_of(s).contains(
                s[i],
            ),
    decreases s.len(),
{
    if s.len() > 0 {
        lemma_available_of_complete(s.drop_last());
        assert forall|i: int|
            0 <= i < s.len() && (#[trigger] s[i]).spec_available() implies available_of(
            s,
        ).contains(s[i]) by {
            if i < s.len() - 1 {
                assert(s.drop_last()[i] == s[i]);
                let j = choose|j: int|
                    0 <= j < available_of(s.drop_last()).len() && available_of(s.drop_last())[j]
                        == s[i];
                assert(available_of(s)[j] == s[i]);
            } else {
                assert(available_of(s).last() == s[i]);
            }
        }
    }
}

/// The plugins whose snapshot read is taken during one collection pass:
/// those currently available whose read succeeds, in registry order, in
/// the state they were in.
pub open spec fn collected_plugins(s: Seq<HardwarePlugin>) -> Seq<HardwarePlugin>
    decreases s.len(),
{
    if s.len() == 0 {
        Seq::empty()
    } else {
        let rest = collected_plugins(s.drop_last());
        if s.last().spec_available() && s.last().spec_read_ok() {
            rest.push(s.last())
        } else {
            rest
        }
    }
}

/// A plugin's state after one collection pass: an available plugin is
/// read once, an unavailable plugin is never touched.
pub open spec fn after_collect(p: HardwarePlugin) -> HardwarePlugin {
    if p.spec_available() {
        p.spec_after_read()
    } else {
        p
    }
}

/// Plugin names are pairwise distinct.
pub open spec fn distinct_plugin_names(s: Seq<HardwarePlugin>) -> bool {
    forall|i: int, j: int|
        0 <= i < j < s.len() ==> (#[trigger] s[i]).spec_name() != (#[trigger] s[j]).spec_name()
}

/// Two distinct registry positions carry distinct names.
pub proof fn lemma_distinct_names_at(s: Seq<HardwarePlugin>, i: int, j: int)
    requires
        distinct_plugin_names(s),
        0 <= i < j < s.len(),
    ensures
        s[i].spec_name() != s[j].spec_name(),
{
}

/// A read never breaks a plugin's well-formedness.
pub proof fn lemma_after_collect_wf(p: HardwarePlugin)
    requires
        p.wf(),
    ensures
        after_collect(p).wf(),
{
}

/// A successful read of a well-formed plugin delivers a capped reading
/// that carries the plugin's own name as its source.
pub proof fn lemma_read_result_shape(p: HardwarePlugin, m: Measurement)
    requires
        p.wf(),
        p.spec_read_ok(),
        p.read_result_matches(m),
    ensures
        m.valid(),
        m.source@ == p.spec_name(),
{
}

/// Every collected plugin is one of the registry's plugins.
pub proof fn lemma_collected_subset(s: Seq<HardwarePlugin>)
    ensures
        forall|k: int|
            0 <= k < collected_plugins(s).len() ==> exists|i: int|
                0 <= i < s.len() && #[trigger] collected_plugins(s)[k] == s[i],
    decreases s.len(),
{
    if s.len() > 0 {
        lemma_collected_subset(s.drop_last());
        assert forall|k: int| 0 <= k < collected_plugins(s).len() implies exists|i: int|
            0 <= i < s.len() && #[trigger] collected_plugins(s)[k] == s[i] by {
            let rest = collected_plugins(s.drop_last());
            if k < rest.len() {
                let i = choose|i: int| 0 <= i < s.drop_last().len() && rest[k] == s.drop_last()[i];
                assert(s.drop_last()[i] == s[i]);
                assert(collected_plugins(s)[k] == s[i]);
            } else {
                assert(collected_plugins(s)[k] == s[s.len() - 1]);
            }
        }
    }
}

/// When the registry's plugin names are pairwise distinct, so are the
/// names of the plugins read during one collection pass.
pub proof fn lemma_collected_names_distinct(s: Seq<HardwarePlugin>)
    requires
        distinct_plugin_names(s),
    ensures
        distinct_plugin_names(collected_plugins(s)),
    decreases s.len(),
{
    if s.len() > 0 {
        let rest = s.drop_last();
        assert(distinct_plugin_names(rest)) by {
            assert(forall|i: int| 0 <= i < rest.len() ==> rest[i] == s[i]);
        }
        lemma_collected_names_distinct(rest);
        lemma_collected_subset(rest);
        let c = collected_plugins(s);
        let crest = collected_plugins(rest);
        if s.last().spec_available() && s.last().spec_read_ok() {
            assert forall|i: int, j: int| 0 <= i < j < c.len() implies c[i].spec_name()
                != c[j].spec_name() by {
                if j < crest.len() {
                    assert(c[i] == crest[i] && c[j] == crest[j]);
                } else {
                    assert(c[j] == s.last());
                    assert(c[i] == crest[i]);
                    let w = choose|w: int| 0 <= w < rest.len() && crest[i] == rest[w];
                    assert(rest[w] == s[w]);
                    assert(s[w].spec_name() != s[s.len() - 1].spec_name());
                }
            }
        }
    }
}

/// Owns the set of instantiated plugins.  Construction instantiates
/// every compiled-in variant; a variant whose constructor fails is
/// simply omitted, since absence of hardware is normal, not
/// exceptional.  Availability is re-checked per query, never cached.
pub struct PluginRegistry {
    plugins: Vec<HardwarePlugin>,
}

impl PluginRegistry {
    /// The owned plugins, in registration order.
    pub closed spec fn plugins_seq(self) -> Seq<HardwarePlugin> {
        self.plugins@
    }

    /// Every owned plugin is well-formed.
    pub open spec fn wf(self) -> bool {
        forall|i: int| 0 <= i < self.plugins_seq().len() ==> (#[trigger] self.plugins_seq()[i]).wf()
    }

    /// A registry holding one instance of every compiled-in variant.
    pub fn new() -> (r: PluginRegistry)
        ensures
            r.wf(),
            r.plugins_seq().len() == 4,
            r.plugins_seq()[0].spec_name() == "intel-rapl"@,
            r.plugins_seq()[1].spec_name() == "amd-energy"@,
            r.plugins_seq()[2].spec_name() == "arm-energy"@,
            r.plugins_seq()[3].spec_name() == "nvidia-gpu"@,
            forall|i: int|
                0 <= i < r.plugins_seq().len() ==> (#[trigger] r.plugins_seq()[i]).spec_available(),
    {
        let mut plugins: Vec<HardwarePlugin> = Vec::new();
        if let Ok(plugin) = IntelRaplPlugin::new() {
            plugins.push(HardwarePlugin::IntelRapl(plugin));
        }
        if let Ok(plugin) = AmdEnergyPlugin::new() {
            plugins.push(HardwarePlugin::AmdEnergy(plugin));
        }
        if let Ok(plugin) = ArmEnergyPlugin::new() {
            plugins.push(HardwarePlugin::ArmEnergy(plugin));
        }
        if let Ok(plugin) = NvidiaGpuPlugin::new() {
            plugins.push(HardwarePlugin::NvidiaGpu(plugin));
        }
        PluginRegistry { plugins }
    }

    /// Register a further plugin instance, such as an externally
    /// supplied simulated source.
    pub fn register_plugin(&mut self, plugin: HardwarePlugin)
        requires
            old(self).wf(),
            plugin.wf(),
        ensures
            final(self).wf(),
            final(self).plugins_seq() == old(self).plugins_seq().push(plugin),
    {
        self.plugins.push(plugin);
        proof {
            assert forall|i: int| 0 <= i < self.plugins@.len() implies (
            #[trigger] self.plugins@[i]).wf() by {
                if i < old(self).plugins_seq().len() {
                    assert(self.plugins@[i] == old(self).plugins_seq()[i]);
                } else {
                    assert(self.plugins@[i] == plugin);
                }
            }
        }
    }

    /// All owned plugins, available or not.
    pub fn get_plugins(&self) -> (r: &Vec<HardwarePlugin>)
        ensures
            r@ == self.plugins_seq(),
    {
        &self.plugins
    }

    /// The subset of plugins currently reporting themselves available,
    /// recomputed on every call since hardware presence is
    /// time-variant.  A plugin that is not available never appears in
    /// the result.
    pub fn get_available_plugins(&self) -> (r: Vec<&HardwarePlugin>)
        ensures
            r@.len() == available_of(self.plugins_seq()).len(),
            forall|k: int|
                0 <= k < r@.len() ==> *r@[k] == available_of(self.plugins_seq())[k],
            forall|k: int| 0 <= k < r@.len() ==> (*r@[k]).spec_available(),
    {
        let mut out: Vec<&HardwarePlugin> = Vec::new();
        let mut i: usize = 0;
        proof {
            assert(self.plugins@.take(0) =~= Seq::<HardwarePlugin>::empty());
        }
        while i < self.plugins.len()
            invariant
                i <= self.plugins@.len(),
                out@.len() == available_of(self.plugins@.take(i as int)).len(),
                forall|k: int|
                    0 <= k < out@.len() ==> *out@[k] == available_of(
                        self.plugins@.take(i as int),
                    )[k],
            decreases self.plugins@.len() - i,
        {
            proof {
                assert(self.plugins@.take(i + 1).drop_last() =~= self.plugins@.take(i as int));
                assert(self.plugins@.take(i + 1).last() == self.plugins@[i as int]);
            }
            if self.plugins[i].is_available() {
                out.push(&self.plugins[i]);
            }
            i = i + 1;
        }
        proof {
            assert(self.plugins@.take(self.plugins@.len() as int) =~= self.plugins@);
            lemma_available_of_complete(self.plugins_seq());
        }
        out
    }

    /// One collection pass: take one snapshot reading from every
    /// available plugin, in registry order.  A plugin that is not
    /// available is never touched; a plugin whose read fails is skipped
    /// and simply absent from the result, since a failing source must
    /// not abort a whole session.
    pub fn read_available(&mut self) -> (r: Vec<Measurement>)
        requires
            old(self).wf(),
        ensures
            final(self).wf(),
            final(self).plugins_seq().len() == old(self).plugins_seq().len(),
            forall|j: int|
                0 <= j < old(self).plugins_seq().len() ==> final(self).plugins_seq()[j]
                    == after_collect(#[trigger] old(self).plugins_seq()[j]),
            r@.len() == collected_plugins(old(self).plugins_seq()).len(),
            forall|k: int|
                0 <= k < r@.len() ==> (#[trigger] collected_plugins(
                    old(self).plugins_seq(),
                )[k]).read_result_matches(r@[k]),
            forall|k: int| 0 <= k < r@.len() ==> (#[trigger] r@[k]).valid(),
            forall|k: int|
                0 <= k < r@.len() ==> (#[trigger] r@[k]).source@ == collected_plugins(
                    old(self).plugins_seq(),
                )[k].spec_name(),
    {
        let ghost orig = self.plugins@;
        let mut out: Vec<Measurement> = Vec::new();
        let mut i: usize = 0;
        proof {
            assert(orig.take(0) =~= Seq::<HardwarePlugin>::empty());
        }
        while i < self.plugins.len()
            invariant
                i <= orig.len(),
                self.plugins@.len() == orig.len(),
                forall|j: int|
                    0 <= j < i ==> self.plugins@[j] == after_collect(#[trigger] orig[j]),
                forall|j: int| i <= j < orig.len() ==> self.plugins@[j] == orig[j],
                forall|j: int| 0 <= j < orig.len() ==> (#[trigger] orig[j]).wf(),
                out@.len() == collected_plugins(orig.take(i as int)).len(),
                forall|k: int|
                    0 <= k < out@.len() ==> (#[trigger] collected_plugins(
                        orig.take(i as int),
                    )[k]).read_result_matches(out@[k]),
                forall|k: int| 0 <= k < out@.len() ==> (#[trigger] out@[k]).valid(),
                forall|k: int|
                    0 <= k < out@.len() ==> (#[trigger] out@[k]).source@ == collected_plugins(
                        orig.take(i as int),
                    )[k].spec_name(),
            decreases orig.len() - i,
        {
            proof {
                assert(orig.take(i + 1).drop_last() =~= orig.take(i as int));
                assert(orig.take(i + 1).last() == orig[i as int]);
            }
            let ghost plugin_before = self.plugins@[i as int];
            if self.plugins[i].is_available() {
                match self.plugins[i].get_measurement() {
                    Ok(m) => {
                        proof {
                            lemma_read_result_shape(plugin_before, m);
                        }
                        out.push(m);
                    },
                    Err(_) => {},
                }
                proof {
                    lemma_after_collect_wf(plugin_before);
                }
            }
            i = i + 1;
        }
        proof {
            assert(orig.take(orig.len() as int) =~= orig);
            assert forall|j: int| 0 <= j < self.plugins@.len() implies (
            #[trigger] self.plugins@[j]).wf() by {
                lemma_after_collect_wf(orig[j]);
            }
        }
        out
    }

    /// Linear lookup of a plugin by its stable identifier; the plugin
    /// cardinality is small.  Returns the first plugin carrying the
    /// name, or `None` when no plugin does.
    pub fn get_plugin_by_name(&self, name: &str) -> (r: Option<&HardwarePlugin>)
        ensures
            match r {
                Some(p) => p.spec_name() == name@ && exists|i: int|
                    {
                        &&& 0 <= i < self.plugins_seq().len()
                        &&& *p == #[trigger] self.plugins_seq()[i]
                        &&& forall|j: int|
                            0 <= j < i ==> (#[trigger] self.plugins_seq()[j]).spec_name() != name@
                    },
                None => forall|i: int|
                    0 <= i < self.plugins_seq().len() ==> (
                    #[trigger] self.plugins_seq()[i]).spec_name() != name@,
            },
    {
        let key = String::from_str(name);
        let mut i: usize = 0;
        while i < self.plugins.len()
            invariant
                i <= self.plugins@.len(),
                key@ == name@,
                forall|j: int|
                    0 <= j < i ==> (#[trigger] self.plugins@[j]).spec_name() != name@,
            decreases self.plugins@.len() - i,
        {
            if *self.plugins[i].name() == key {
                proof {
                    let ghost w = i as int;
                    assert(0 <= w < self.plugins_seq().len() && self.plugins@[w]
                        == self.plugins_seq()[w]);
                }
                return Some(&self.plugins[i]);
            }
            i = i + 1;
        }
        None
    }
}

} // verus!
