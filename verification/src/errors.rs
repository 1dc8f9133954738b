//! Error taxonomy. Construction-time failures abort scene construction
//! entirely: a resource graph is static, and a failure signals an invalid
//! description, not a runtime condition to recover from.
use vstd::prelude::*;

verus! {

/// Why an operation on a scene failed.
#[derive(Clone, Copy, PartialEq, Eq, Structural, Debug)]
pub enum SceneError {
    /// A referenced resource or job name is absent from its table.
    NameResolutionFailure,
    /// No memory type satisfies the required property mask.
    UnsupportedMemoryType,
    /// The device rejected an allocation or object creation.
    DeviceObjectCreationFailure,
    /// Host mapping of a buffer failed.
    MappingFailure,
    /// A fence wait exceeded its bound.
    SynchronizationTimeout,
    /// A job names a command the recorder does not support yet
    /// (pipeline binding, descriptor-set binding, buffer-to-image transfer).
    UnsupportedCommand,
}

impl SceneError {
    /// A short name for reporting.
    pub fn describe(&self) -> (r: &'static str)
    {
        match self {
            SceneError::NameResolutionFailure => "name resolution failure",
            SceneError::UnsupportedMemoryType => "unsupported memory type",
            SceneError::DeviceObjectCreationFailure => "device object creation failure",
            SceneError::MappingFailure => "mapping failure",
            SceneError::SynchronizationTimeout => "synchronization timeout",
            SceneError::UnsupportedCommand => "unsupported command",
        }
    }
}

} // verus!
