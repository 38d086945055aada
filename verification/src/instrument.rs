//! Configuration for instrumenting target programs with measurement
//! hooks.  The engine only carries the configuration and hands source
//! text through; parsing and rewriting of target programs belong to
//! external collaborators.

use vstd::prelude::*;
use crate::errors::EnergyError;

verus! {

/// A programming language whose sources can be instrumented.
#[derive(Debug, Clone, Copy, PartialEq, Eq, Structural)]
pub enum Language {
    Python,
    JavaScript,
    Rust,
}

impl Language {
    /// The language's lower-case identifier.
    pub fn as_str(&self) -> (r: &'static str)
        ensures
            *self is Python ==> r@ == "python"@,
            *self is JavaScript ==> r@ == "javascript"@,
            *self is Rust ==> r@ == "rust"@,
    {
        match self {
            Language::Python => "python",
            Language::JavaScript => "javascript",
            Language::Rust => "rust",
        }
    }
}

/// What to instrument in a target program.
#[derive(Debug, Clone, Copy, PartialEq, Eq, Structural)]
pub struct InstrumentationConfig {
    pub language: Language,
    pub instrument_functions: bool,
    pub instrument_loops: bool,
    pub instrument_memory: bool,
}

impl Default for InstrumentationConfig {
    /// Instrument functions, loops and memory operations of Python
    /// sources.
    fn default() -> (r: InstrumentationConfig)
        ensures
            r.language is Python,
            r.instrument_functions,
            r.instrument_loops,
            r.instrument_memory,
    {
        InstrumentationConfig {
            language: Language::Python,
            instrument_functions: true,
            instrument_loops: true,
            instrument_memory: true,
        }
    }
}

/// Carries an instrumentation configuration and applies it to source
/// text.  Rewriting is not wired to a parser, so source text passes
/// through unchanged.
#[derive(Debug)]
pub struct Instrumenter {
    config: InstrumentationConfig,
}

impl Instrumenter {
    /// The current configuration.
    pub closed spec fn spec_config(self) -> InstrumentationConfig {
        self.config
    }

    /// An instrumenter with the given configuration.
    pub fn new(config: InstrumentationConfig) -> (r: Instrumenter)
        ensures
            r.spec_config() == config,
    {
        Instrumenter { config }
    }

    /// Instrument source text.  Rewriting is not wired to a parser, so
    /// the text comes back unchanged and the call never fails.
    pub fn instrument_code(&self, source: &str) -> (r: Result<String, EnergyError>)
        ensures
            r matches Ok(s) && s@ == source@,
    {
        Ok(String::from_str(source))
    }

    /// The current configuration.
    pub fn config(&self) -> (r: &InstrumentationConfig)
        ensures
            *r == self.spec_config(),
    {
        &self.config
    }

    /// Replace the configuration.
    pub fn update_config(&mut self, config: InstrumentationConfig)
        ensures
            final(self).spec_config() == config,
    {
        self.config = config;
    }
}

} // verus!
