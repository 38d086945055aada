use energy_core::instrument::{InstrumentationConfig, Instrumenter, Language};

#[test]
fn test_instrumenter_creation() {
    let config = InstrumentationConfig::default();
    let instrumenter = Instrumenter::new(config);
    assert_eq!(instrumenter.config().language, Language::Python);
}

#[test]
fn test_instrument_code() {
    let config = InstrumentationConfig::default();
    let instrumenter = Instrumenter::new(config);
    let source = "def hello(): pass";
    let result = instrumenter.instrument_code(source).unwrap();
    assert_eq!(result, source);
}

#[test]
fn language_identifiers() {
    assert_eq!(Language::Python.as_str(), "python");
    assert_eq!(Language::JavaScript.as_str(), "javascript");
    assert_eq!(Language::Rust.as_str(), "rust");
}

#[test]
fn config_can_be_updated() {
    let mut instrumenter = Instrumenter::new(InstrumentationConfig::default());
    let config = InstrumentationConfig {
        language: Language::Rust,
        instrument_functions: true,
        instrument_loops: false,
        instrument_memory: false,
    };
    instrumenter.update_config(config);
    assert_eq!(instrumenter.config().language, Language::Rust);
    assert!(!instrumenter.config().instrument_loops);
}
