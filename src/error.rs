use vstd::prelude::*;

verus! {

/// Every way in which a contract call can fail. All of them are fatal to the
/// call: the host discards the call's state changes.
#[derive(Debug, Clone, Copy, PartialEq, Eq, Structural)]
pub enum TokenError {
    /// A checked addition on a 128-bit counter would wrap.
    ArithmeticOverflow,
    /// The init opcode ran on an instance that is already initialized.
    AlreadyInitialized,
    /// A packed name or symbol does not decode as UTF-8 text.
    InvalidUtf8,
    /// The call's first operand selects no operation.
    UnrecognizedOpcode,
    /// The call's incoming value holds no unit of the auth token.
    Unauthorized,
    /// The call supplies fewer operands than its opcode consumes.
    MissingOperand,
    /// A free mint pushed the minted count past the cap.
    CapExceeded,
}

} // verus!
