//! The error kinds of the engine.

use vstd::prelude::*;
use vstd::string::*;

verus! {

/// Why an invocation of a module did not produce a table.
#[derive(Clone, Copy, Debug, PartialEq, Eq, Structural, Hash)]
pub enum ModuleError {
    /// The module's logic failed: a command, a parse or an I/O step.
    ExecutionError,
    /// The module panicked; the panic was caught at the dispatcher.
    Panicked,
    /// The batch was cancelled before the module had a result.
    Cancelled,
}

impl ModuleError {
    /// The text shown for this error.
    pub open spec fn message_text(&self) -> Seq<char> {
        match self {
            ModuleError::ExecutionError => "Module failed to execute"@,
            ModuleError::Panicked => "Module panicked"@,
            ModuleError::Cancelled => "Module was cancelled"@,
        }
    }

    /// The text shown for this error.
    pub fn message(&self) -> (out: String)
        ensures
            out@ == self.message_text(),
    {
        match self {
            ModuleError::ExecutionError => "Module failed to execute".to_owned(),
            ModuleError::Panicked => "Module panicked".to_owned(),
            ModuleError::Cancelled => "Module was cancelled".to_owned(),
        }
    }
}

/// Why a descriptor was not taken into the registry. Any of these makes the
/// module set untrustworthy, so start-up is expected to stop on it.
#[derive(Clone, Copy, Debug, PartialEq, Eq, Structural, Hash)]
pub enum RegistrationError {
    /// The identifier is empty or no platform is declared.
    Malformed,
    /// A descriptor with the same identifier is already registered.
    Duplicate,
    /// The registry was frozen before this call.
    Frozen,
}

} // verus!
