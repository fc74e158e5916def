//! Kernel error kinds.

use vstd::prelude::*;

verus! {

/// Failures reported by the kernel.  Failures that come from storage, the
/// file system or (de)serialization carry the underlying error's message.
#[derive(Clone, Debug, PartialEq, Eq)]
pub enum KernelError {
    Database(String),
    VaultError(String),
    AgentNotFound(String),
    AgentCapExceeded(String),
    Io(String),
    Serde(String),
    Internal(String),
    Overloaded(String),
}

} // verus!
