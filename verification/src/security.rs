//! The security gate: a pluggable point for at-rest encryption and audit
//! logging of sensitive operations. Both capabilities are currently inert
//! stubs, kept as an explicit interface so that callers never mistake the
//! placeholder for real protection.

use vstd::prelude::*;

verus! {

/// Gate through which mutating operations may route encryption and audit
/// requests. Currently holds no state.
pub struct SecurityManager;

impl SecurityManager {
    /// Creates a security gate.
    pub fn new() -> (r: SecurityManager) {
        SecurityManager
    }

    /// Placeholder for at-rest encryption. It is *not* a real transform:
    /// it returns an empty buffer, and callers must never treat its output
    /// as encrypted data.
    pub fn encrypt_sensitive_data(&self, data: &[u8]) -> (r: Vec<u8>)
        ensures
            r@ == Seq::<u8>::empty(),
    {
        let r: Vec<u8> = Vec::new();
        r
    }

    /// Placeholder for the append-only audit trail. Recording an operation
    /// currently has no effect and never fails, so it cannot block or abort
    /// the primary operation.
    pub fn log_operation(&self, operation: &str) {
    }
}

} // verus!
