//! Session core for a homomorphic-encryption service.
//!
//! The library owns the state of such a service: stores of key material and
//! of ciphertexts, both keyed by opaque string handles, together with the
//! validation and dispatch rules for homomorphic operations. The encryption
//! scheme itself is an external collaborator: every place where the core
//! needs it, the caller hands in a callable, and the contracts here relate
//! the store state before and after to what that callable returned.

pub mod crypto;
pub mod error;
mod handle;
pub mod operator;
pub mod service;

pub use error::FheError;
pub use operator::Operator;
pub use operator::OperatorClass;
pub use service::FheServiceImpl;
