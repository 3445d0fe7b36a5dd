//! The ways in which a ledger operation is refused.

use vstd::prelude::*;
use vstd::string::StringExecFns;
use secret_cosmwasm_std::StdError;

verus! {

/// The chain's own error type. It is carried through when the token toolkit
/// fails to build a message, and never looked into.
#[verifier::external_type_specification]
#[verifier::external_body]
pub struct ExStdError(StdError);

/// The class of a refusal.
#[derive(Clone, Copy, Debug, PartialEq, Eq, Structural)]
pub enum ErrorKind {
    /// Nothing is recorded under the key that was asked for.
    NotFound,
    /// The order, or the payment, is not in the state that the operation needs.
    PreconditionFailed,
    /// The caller is not the one that the operation is reserved for.
    Unauthorized,
    /// A position counter has reached the end of its domain.
    Overflow,
    /// A message for the token contract could not be built.
    Message,
}

/// A refusal of a ledger operation. No refusal leaves a trace in the ledger.
#[derive(Debug, PartialEq)]
pub enum ContractError {
    /// No order is recorded at the position that was asked for.
    NotFound,
    /// The identity has never created an order.
    OrderDoesNotExist,
    /// The execution fee did not arrive through the fee token.
    WrongFeeToken,
    /// The amount paid is not the execution fee that the configuration names.
    WrongFeeAmount,
    /// The order was created at another height than the current one.
    FeeOutsideCreationBlock,
    /// The order has its execution fee already.
    FeeAlreadySet,
    /// The order to attach a fee to is filled or cancelled.
    OrderNotOpen,
    /// The order to cancel is filled or cancelled.
    OrderClosed,
    /// The caller is not among those that the operation admits.
    Unauthorized,
    /// The identity holds as many orders as positions exist.
    TooManyOrders,
    /// The token toolkit could not build a message; its error is inside.
    Message(StdError),
}

impl ContractError {
    /// The class that a refusal belongs to.
    pub open spec fn spec_kind(&self) -> ErrorKind {
        match self {
            ContractError::NotFound | ContractError::OrderDoesNotExist => ErrorKind::NotFound,
            ContractError::WrongFeeAmount
            | ContractError::FeeOutsideCreationBlock
            | ContractError::FeeAlreadySet
            | ContractError::OrderNotOpen
            | ContractError::OrderClosed => ErrorKind::PreconditionFailed,
            ContractError::WrongFeeToken | ContractError::Unauthorized => ErrorKind::Unauthorized,
            ContractError::TooManyOrders => ErrorKind::Overflow,
            ContractError::Message(_) => ErrorKind::Message,
        }
    }

    /// The class that a refusal belongs to.
    #[verifier::when_used_as_spec(spec_kind)]
    pub fn kind(&self) -> (kind: ErrorKind)
        ensures
            kind == self.spec_kind(),
    {
        match self {
            ContractError::NotFound | ContractError::OrderDoesNotExist => ErrorKind::NotFound,
            ContractError::WrongFeeAmount
            | ContractError::FeeOutsideCreationBlock
            | ContractError::FeeAlreadySet
            | ContractError::OrderNotOpen
            | ContractError::OrderClosed => ErrorKind::PreconditionFailed,
            ContractError::WrongFeeToken | ContractError::Unauthorized => ErrorKind::Unauthorized,
            ContractError::TooManyOrders => ErrorKind::Overflow,
            ContractError::Message(_) => ErrorKind::Message,
        }
    }

    /// The sentence that goes with a refusal of the ledger's own. A failure of
    /// the token toolkit has its own text, which this library does not know.
    pub open spec fn spec_text(&self) -> Seq<char> {
        match self {
            ContractError::NotFound => "Order not found."@,
            ContractError::OrderDoesNotExist => "Order does not exist."@,
            ContractError::WrongFeeToken => "Execution fee token must be SSCRT."@,
            ContractError::WrongFeeAmount => "Amount sent in must equal execution fee."@,
            ContractError::FeeOutsideCreationBlock =>
                "Execution fee must be set at the same block as when order is created."@,
            ContractError::FeeAlreadySet => "Execution fee already set for order."@,
            ContractError::OrderNotOpen => "Order is not open."@,
            ContractError::OrderClosed => "Order is already filled or cancelled."@,
            ContractError::Unauthorized => "Unauthorized"@,
            ContractError::TooManyOrders =>
                "Reached implementation limit for the number of orders per address."@,
            ContractError::Message(_) => "Message could not be built."@,
        }
    }

    /// The sentence that goes with a refusal.
    pub fn text(&self) -> (text: String)
        ensures
            text@ == self.spec_text(),
    {
        match self {
            ContractError::NotFound => String::from_str("Order not found."),
            ContractError::OrderDoesNotExist => String::from_str("Order does not exist."),
            ContractError::WrongFeeToken => String::from_str("Execution fee token must be SSCRT."),
            ContractError::WrongFeeAmount => String::from_str(
                "Amount sent in must equal execution fee.",
            ),
            ContractError::FeeOutsideCreationBlock => String::from_str(
                "Execution fee must be set at the same block as when order is created.",
            ),
            ContractError::FeeAlreadySet => String::from_str("Execution fee already set for order."),
            ContractError::OrderNotOpen => String::from_str("Order is not open."),
            ContractError::OrderClosed => String::from_str("Order is already filled or cancelled."),
            ContractError::Unauthorized => String::from_str("Unauthorized"),
            ContractError::TooManyOrders => String::from_str(
                "Reached implementation limit for the number of orders per address.",
            ),
            ContractError::Message(_) => String::from_str("Message could not be built."),
        }
    }
}

} // verus!
