//! Operators and their classification.
//!
//! Every operator has a fixed arity and a fixed operand kind. The dispatcher
//! never looks at an operator directly: it works from the class computed
//! here, so the arity and kind rules live in one place.

use vstd::prelude::*;

verus! {

/// A homomorphic operation that the service recognizes.
#[derive(Clone, Copy, Debug, PartialEq, Eq, Structural)]
pub enum Operator {
    And,
    Or,
    Xor,
    Not,
    Add,
    Subtract,
    Multiply,
    GreaterThan,
    LessThan,
    Equal,
}

/// How the dispatcher treats an operator: its operand kind and arity,
/// or the absence of an execution path.
#[derive(Clone, Copy, Debug, PartialEq, Eq, Structural)]
pub enum OperatorClass {
    /// Two boolean operands.
    BooleanBinary,
    /// One boolean operand.
    BooleanUnary,
    /// Two integer operands.
    IntegerBinary,
    /// Recognized, but with no execution path: the comparisons.
    Unsupported,
}

/// The class of each operator.
pub open spec fn class_of(op: Operator) -> OperatorClass {
    match op {
        Operator::And | Operator::Or | Operator::Xor => OperatorClass::BooleanBinary,
        Operator::Not => OperatorClass::BooleanUnary,
        Operator::Add | Operator::Subtract | Operator::Multiply => OperatorClass::IntegerBinary,
        Operator::GreaterThan | Operator::LessThan | Operator::Equal => OperatorClass::Unsupported,
    }
}

impl Operator {
    /// The class this operator falls under.
    pub fn classify(&self) -> (c: OperatorClass)
        ensures
            c == class_of(*self),
    {
        match self {
            Operator::And | Operator::Or | Operator::Xor => OperatorClass::BooleanBinary,
            Operator::Not => OperatorClass::BooleanUnary,
            Operator::Add | Operator::Subtract | Operator::Multiply => OperatorClass::IntegerBinary,
            Operator::GreaterThan | Operator::LessThan | Operator::Equal => OperatorClass::Unsupported,
        }
    }
}

} // verus!
