//! The error taxonomy of the service core.
//!
//! Every validation failure of the core is one of these kinds; each carries
//! the human-readable message that callers of the service see.

use vstd::prelude::*;

verus! {

/// Why a request against the service core was rejected.
///
/// Every kind is produced before any engine callable runs, so a failed
/// request never changes the stores.
#[derive(Clone, Copy, Debug, PartialEq, Eq, Structural)]
pub enum FheError {
    /// The requested parameter set is not one of the recognized values.
    InvalidParameterSet,
    /// The client-key handle does not resolve in the client partition.
    ClientKeyNotFound,
    /// The server-key handle does not resolve in the server partition.
    ServerKeyNotFound,
    /// The ciphertext handle named by a decryption does not resolve.
    EncryptedDataNotFound,
    /// The first operand of a binary operation does not resolve.
    FirstOperandNotFound,
    /// The second operand of a binary operation does not resolve.
    SecondOperandNotFound,
    /// The operand of a unary operation does not resolve.
    OperandNotFound,
    /// An evaluation request named no operands at all.
    NoOperands,
    /// A binary operator was given an operand count other than two.
    BinaryOperandCount,
    /// A unary operator was given an operand count other than one.
    UnaryOperandCount,
    /// A plaintext integer does not fit the fixed ciphertext width.
    ValueOutOfRange,
    /// The operator is recognized but has no execution path.
    Unimplemented,
}

impl FheError {
    /// The message for this error kind, as a sequence of characters.
    pub open spec fn message_spec(self) -> Seq<char> {
        match self {
            FheError::InvalidParameterSet => "Invalid parameter set"@,
            FheError::ClientKeyNotFound => "Client key not found"@,
            FheError::ServerKeyNotFound => "Server key not found"@,
            FheError::EncryptedDataNotFound => "Encrypted data not found"@,
            FheError::FirstOperandNotFound => "First operand not found"@,
            FheError::SecondOperandNotFound => "Second operand not found"@,
            FheError::OperandNotFound => "Operand not found"@,
            FheError::NoOperands => "No operands provided"@,
            FheError::BinaryOperandCount => "Binary operation requires 2 operands"@,
            FheError::UnaryOperandCount => "Unary operation requires 1 operand"@,
            FheError::ValueOutOfRange => "Value out of range for uint8"@,
            FheError::Unimplemented => "Comparison operations not implemented in this demo"@,
        }
    }

    /// The human-readable message that callers of the service see.
    pub fn message(&self) -> (r: &'static str)
        ensures
            r@ == self.message_spec(),
    {
        match self {
            FheError::InvalidParameterSet => "Invalid parameter set",
            FheError::ClientKeyNotFound => "Client key not found",
            FheError::ServerKeyNotFound => "Server key not found",
            FheError::EncryptedDataNotFound => "Encrypted data not found",
            FheError::FirstOperandNotFound => "First operand not found",
            FheError::SecondOperandNotFound => "Second operand not found",
            FheError::OperandNotFound => "Operand not found",
            FheError::NoOperands => "No operands provided",
            FheError::BinaryOperandCount => "Binary operation requires 2 operands",
            FheError::UnaryOperandCount => "Unary operation requires 1 operand",
            FheError::ValueOutOfRange => "Value out of range for uint8",
            FheError::Unimplemented => "Comparison operations not implemented in this demo",
        }
    }
}

} // verus!
