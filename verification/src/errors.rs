//! Error taxonomy for hardware energy measurement.

use vstd::prelude::*;

verus! {

/// Errors raised while talking to a hardware energy interface.
///
/// `DeviceNotFound` means the backing interface is absent and the source
/// should be treated as permanently unavailable for this run.
/// `PermissionDenied` means the interface exists but access was refused.
/// `SensorError` means a read returned malformed or truncated data and may
/// be retried.  `UnsupportedOperation` means a start/stop call was made out
/// of the permitted state sequence.  `Other` covers backend-specific
/// failures.
#[derive(Debug, Clone)]
pub enum HardwareError {
    DeviceNotFound(String),
    PermissionDenied(String),
    SensorError(String),
    UnsupportedOperation(String),
    Other(String),
}

impl HardwareError {
    /// The human-readable detail carried by the error.
    pub fn message(&self) -> (r: &String)
        ensures
            r@ == self.message_spec(),
    {
        match self {
            HardwareError::DeviceNotFound(m) => m,
            HardwareError::PermissionDenied(m) => m,
            HardwareError::SensorError(m) => m,
            HardwareError::UnsupportedOperation(m) => m,
            HardwareError::Other(m) => m,
        }
    }

    /// The detail string of any variant, as a sequence of characters.
    pub open spec fn message_spec(&self) -> Seq<char> {
        match self {
            HardwareError::DeviceNotFound(m) => m@,
            HardwareError::PermissionDenied(m) => m@,
            HardwareError::SensorError(m) => m@,
            HardwareError::UnsupportedOperation(m) => m@,
            HardwareError::Other(m) => m@,
        }
    }
}

/// Errors raised while setting up or enumerating hardware plugins.
#[derive(Debug, Clone)]
pub enum HardwarePluginError {
    InitializationError(String),
    MeasurementError(String),
    UnsupportedHardware(String),
}

/// Errors surfaced by the measurement engine as a whole.
#[derive(Debug, Clone)]
pub enum EnergyError {
    HardwareError(HardwareError),
    LanguageError(String),
    MeasurementError(String),
}

impl EnergyError {
    /// The human-readable detail carried by the error.
    pub fn message(&self) -> (r: &String)
        ensures
            r@ == self.message_spec(),
    {
        match self {
            EnergyError::HardwareError(e) => e.message(),
            EnergyError::LanguageError(m) => m,
            EnergyError::MeasurementError(m) => m,
        }
    }

    /// The detail string of any variant, as a sequence of characters.
    pub open spec fn message_spec(&self) -> Seq<char> {
        match self {
            EnergyError::HardwareError(e) => e.message_spec(),
            EnergyError::LanguageError(m) => m@,
            EnergyError::MeasurementError(m) => m@,
        }
    }
}

/// Result type for energy measurement operations.
pub type EnergyResult<T> = Result<T, EnergyError>;

} // verus!
