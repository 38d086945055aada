//! The energy monitor: opens a multi-source session by taking one start
//! reading per available source, and closes it by pairing end readings
//! and freezing the session's end time.
//!
//! A source that is not available is never read.  A source whose read
//! fails is skipped, not fatal: it is simply absent from the session's
//! maps and therefore excluded from the aggregate total and listed in
//! the session's missing-sources report.

use vstd::prelude::*;
use crate::errors::EnergyResult;
use crate::measurement::{Measurement, same_measurement};
use crate::registry::{
    after_collect,
    available_of,
    collected_plugins,
    distinct_plugin_names,
    lemma_collected_names_distinct,
    HardwarePlugin,
    PluginRegistry,
};
use crate::session::{contains_source, MultiSourceSession};

verus! {

/// The readings collected from a sequence of plugins, pointwise: one
/// reading per collected plugin, each as the plugin's contract
/// describes it.
pub open spec fn readings_match(ps: Seq<HardwarePlugin>, ms: Seq<Measurement>) -> bool {
    &&& ms.len() == ps.len()
    &&& forall|k: int| 0 <= k < ps.len() ==> (#[trigger] ps[k]).read_result_matches(ms[k])
    &&& forall|k: int| 0 <= k < ps.len() ==> (#[trigger] ms[k]).source@ == ps[k].spec_name()
}

/// What a plugin promises of a reading depends only on the reading's
/// observable fields.
proof fn lemma_matches_congruent(p: HardwarePlugin, a: Measurement, b: Measurement)
    requires
        p.read_result_matches(a),
        same_measurement(b, a),
    ensures
        p.read_result_matches(b),
{
}

/// Manages the hardware plugins and aggregates their readings into
/// sessions.
pub struct EnergyMonitor {
    registry: PluginRegistry,
}

impl EnergyMonitor {
    /// The owned plugins, in registration order.
    pub closed spec fn plugins(self) -> Seq<HardwarePlugin> {
        self.registry.plugins_seq()
    }

    /// Every owned plugin is well-formed.
    pub open spec fn wf(self) -> bool {
        forall|i: int| 0 <= i < self.plugins().len() ==> (#[trigger] self.plugins()[i]).wf()
    }

    /// A monitor over a freshly constructed registry holding one
    /// instance of every compiled-in plugin variant.
    pub fn new() -> (r: EnergyMonitor)
        ensures
            r.wf(),
            r.plugins().len() == 4,
            forall|i: int| 0 <= i < r.plugins().len() ==> (#[trigger] r.plugins()[i]).spec_available(),
    {
        EnergyMonitor { registry: PluginRegistry::new() }
    }

    /// Register a further plugin instance.
    pub fn register_plugin(&mut self, plugin: HardwarePlugin)
        requires
            old(self).wf(),
            plugin.wf(),
        ensures
            final(self).wf(),
            final(self).plugins() == old(self).plugins().push(plugin),
    {
        self.registry.register_plugin(plugin);
    }

    /// The plugins currently reporting themselves available.
    pub fn get_plugins(&self) -> (r: Vec<&HardwarePlugin>)
        ensures
            r@.len() == available_of(self.plugins()).len(),
            forall|k: int| 0 <= k < r@.len() ==> *r@[k] == available_of(self.plugins())[k],
            forall|k: int| 0 <= k < r@.len() ==> (*r@[k]).spec_available(),
    {
        self.registry.get_available_plugins()
    }

    /// Open a session: take one start reading from every available
    /// source and record each under its source name.  Never fails; a
    /// source that cannot be read is left out of the session.  When the
    /// registry's plugin names are pairwise distinct (the normal state),
    /// the session's start map holds exactly the collected readings, in
    /// registry order.
    pub fn start_measurement(&mut self) -> (r: EnergyResult<MultiSourceSession>)
        requires
            old(self).wf(),
        ensures
            final(self).wf(),
            final(self).plugins().len() == old(self).plugins().len(),
            forall|j: int|
                0 <= j < old(self).plugins().len() ==> final(self).plugins()[j] == after_collect(
                    #[trigger] old(self).plugins()[j],
                ),
            r is Ok,
            r matches Ok(s) ==> {
                &&& s.wf()
                &&& s.ends().len() == 0
                &&& s.spec_end_time() is None
                &&& (distinct_plugin_names(old(self).plugins()) ==> readings_match(
                    collected_plugins(old(self).plugins()),
                    s.starts(),
                ))
            },
    {
        let ghost orig = self.registry.plugins_seq();
        let readings = self.registry.read_available();
        let mut session = MultiSourceSession::new();
        let ghost collected = collected_plugins(orig);
        let mut k: usize = 0;
        while k < readings.len()
            invariant
                k <= readings@.len(),
                collected == collected_plugins(orig),
                readings@.len() == collected.len(),
                forall|j: int|
                    0 <= j < readings@.len() ==> (#[trigger] collected[j]).read_result_matches(
                        readings@[j],
                    ),
                forall|j: int| 0 <= j < readings@.len() ==> (#[trigger] readings@[j]).valid(),
                forall|j: int|
                    0 <= j < readings@.len() ==> (#[trigger] readings@[j]).source@
                        == collected[j].spec_name(),
                session.wf(),
                session.ends().len() == 0,
                session.spec_end_time() is None,
                distinct_plugin_names(orig) ==> {
                    &&& session.starts().len() == k
                    &&& forall|j: int|
                        0 <= j < k ==> (#[trigger] collected[j]).read_result_matches(
                            session.starts()[j],
                        )
                    &&& forall|j: int|
                        0 <= j < k ==> (#[trigger] session.starts()[j]).source@
                            == collected[j].spec_name()
                },
            decreases readings@.len() - k,
        {
            let m = readings[k].clone();
            proof {
                if distinct_plugin_names(orig) {
                    lemma_collected_names_distinct(orig);
                    lemma_matches_congruent(collected[k as int], readings@[k as int], m);
                    assert(!contains_source(session.starts(), m.source@)) by {
                        if contains_source(session.starts(), m.source@) {
                            let j = choose|j: int|
                                0 <= j < session.starts().len() && session.starts()[j].source@
                                    == m.source@;
                            assert(session.starts()[j].source@ == collected[j].spec_name());
                            assert(m.source@ == readings@[k as int].source@);
                            assert(readings@[k as int].source@ == collected[k as int].spec_name());
                            assert(0 <= j && j < k as int && (k as int) < collected.len());
                            crate::registry::lemma_distinct_names_at(collected, j, k as int);
                            assert(false);
                        }
                    }
                }
            }
            session.add_start_measurement(m);
            k = k + 1;
        }
        Ok(session)
    }

    /// Close a session: take one end reading from every available
    /// source, record each under its source name, and freeze the
    /// session's end time.  Never fails; a source that cannot be read
    /// is left out and thereby excluded from the total.  When the
    /// registry's plugin names are pairwise distinct and the session
    /// has no end readings yet, the end map afterwards holds exactly
    /// the collected readings, in registry order.
    pub fn stop_measurement(&mut self, session: MultiSourceSession) -> (r: EnergyResult<
        MultiSourceSession,
    >)
        requires
            old(self).wf(),
            session.wf(),
        ensures
            final(self).wf(),
            final(self).plugins().len() == old(self).plugins().len(),
            forall|j: int|
                0 <= j < old(self).plugins().len() ==> final(self).plugins()[j] == after_collect(
                    #[trigger] old(self).plugins()[j],
                ),
            r is Ok,
            r matches Ok(s) ==> {
                &&& s.wf()
                &&& s.starts() == session.starts()
                &&& s.spec_start_time() == session.spec_start_time()
                &&& s.spec_end_time() is Some
                &&& (session.spec_end_time() is Some ==> s.spec_end_time()
                    == session.spec_end_time())
                &&& ((distinct_plugin_names(old(self).plugins()) && session.ends().len() == 0)
                    ==> readings_match(collected_plugins(old(self).plugins()), s.ends()))
            },
    {
        let ghost orig = self.registry.plugins_seq();
        let readings = self.registry.read_available();
        let ghost collected = collected_plugins(orig);
        let mut session = session;
        let ghost starts0 = session.starts();
        let ghost start_time0 = session.spec_start_time();
        let ghost end_time0 = session.spec_end_time();
        let ghost ends0 = session.ends();
        let mut k: usize = 0;
        while k < readings.len()
            invariant
                k <= readings@.len(),
                collected == collected_plugins(orig),
                readings@.len() == collected.len(),
                forall|j: int|
                    0 <= j < readings@.len() ==> (#[trigger] collected[j]).read_result_matches(
                        readings@[j],
                    ),
                forall|j: int| 0 <= j < readings@.len() ==> (#[trigger] readings@[j]).valid(),
                forall|j: int|
                    0 <= j < readings@.len() ==> (#[trigger] readings@[j]).source@
                        == collected[j].spec_name(),
                session.wf(),
                session.starts() == starts0,
                session.spec_start_time() == start_time0,
                session.spec_end_time() == end_time0,
                (distinct_plugin_names(orig) && ends0.len() == 0) ==> {
                    &&& session.ends().len() == k
                    &&& forall|j: int|
                        0 <= j < k ==> (#[trigger] collected[j]).read_result_matches(
                            session.ends()[j],
                        )
                    &&& forall|j: int|
                        0 <= j < k ==> (#[trigger] session.ends()[j]).source@
                            == collected[j].spec_name()
                },
            decreases readings@.len() - k,
        {
            let m = readings[k].clone();
            proof {
                if distinct_plugin_names(orig) && ends0.len() == 0 {
                    lemma_collected_names_distinct(orig);
                    lemma_matches_congruent(collected[k as int], readings@[k as int], m);
                    assert(!contains_source(session.ends(), m.source@)) by {
                        if contains_source(session.ends(), m.source@) {
                            let j = choose|j: int|
                                0 <= j < session.ends().len() && session.ends()[j].source@
                                    == m.source@;
                            assert(session.ends()[j].source@ == collected[j].spec_name());
                            assert(m.source@ == readings@[k as int].source@);
                            assert(readings@[k as int].source@ == collected[k as int].spec_name());
                            assert(0 <= j && j < k as int && (k as int) < collected.len());
                            crate::registry::lemma_distinct_names_at(collected, j, k as int);
                            assert(false);
                        }
                    }
                }
            }
            session.add_end_measurement(m);
            k = k + 1;
        }
        session.end();
        Ok(session)
    }
}

} // verus!
