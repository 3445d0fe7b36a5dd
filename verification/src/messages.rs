//! What the ledger asks of token contracts, and the messages that carry its
//! requests. The ledger only builds the messages: it is for its caller to
//! dispatch them.

use vstd::prelude::*;
use secret_cosmwasm_std::{CosmosMsg, HumanAddr, StdError, Uint128};
use crate::errors::ContractError;
use crate::state::{SecretContract, SecretContractView};

verus! {

/// The block that messages to token contracts are padded to.
pub const BLOCK_SIZE: usize = 256;

/// What is asked of a token contract.
#[derive(Clone, Debug, PartialEq)]
pub enum Request {
    /// To move `amount` of the token from the ledger's account to
    /// `recipient`.
    Transfer { recipient: String, amount: u128 },
    /// To notify the contract whose code has the hash `code_hash` of what is
    /// sent to it.
    RegisterReceive { code_hash: String },
    /// To let the balance of the ledger's account be read with `key`.
    SetViewingKey { key: String },
}

/// What a [`Request`] holds.
pub enum RequestView {
    Transfer { recipient: Seq<char>, amount: u128 },
    RegisterReceive { code_hash: Seq<char> },
    SetViewingKey { key: Seq<char> },
}

impl View for Request {
    type V = RequestView;

    open spec fn view(&self) -> RequestView {
        match self {
            Request::Transfer { recipient, amount } => RequestView::Transfer {
                recipient: recipient@,
                amount: *amount,
            },
            Request::RegisterReceive { code_hash } => RequestView::RegisterReceive {
                code_hash: code_hash@,
            },
            Request::SetViewingKey { key } => RequestView::SetViewingKey { key: key@ },
        }
    }
}

/// A request together with the token contract that it goes to.
#[derive(Clone, Debug, PartialEq)]
pub struct Instruction {
    pub token: SecretContract,
    pub request: Request,
}

/// What an [`Instruction`] holds.
pub struct InstructionView {
    pub token: SecretContractView,
    pub request: RequestView,
}

impl View for Instruction {
    type V = InstructionView;

    open spec fn view(&self) -> InstructionView {
        InstructionView { token: self.token@, request: self.request@ }
    }
}

/// A message for the chain to dispatch, as the token toolkit builds it.
/// The verifier cannot take the chain's message type, whose parameter is
/// bound by a trait of a schema crate; it is held here, and nothing is
/// known of what is inside.
#[verifier::external_body]
#[derive(Debug, PartialEq)]
pub struct Message {
    pub inner: CosmosMsg,
}

/// The message that the token toolkit's `snip20::transfer_msg` builds for a
/// transfer of `amount` to `recipient`, without memo and without padding
/// text, padded to `block_size`, addressed to the token contract at
/// `contract_addr` whose code has the hash `callback_code_hash`; `None` where
/// it builds none.
pub uninterp spec fn transfer_msg_outcome(
    recipient: Seq<char>,
    amount: u128,
    block_size: usize,
    callback_code_hash: Seq<char>,
    contract_addr: Seq<char>,
) -> Option<Message>;

/// The message that the token toolkit's `snip20::register_receive_msg` builds
/// to register the code hash `your_contracts_code_hash` with the token
/// contract at `contract_addr`, without padding text, padded to `block_size`;
/// `None` where it builds none.
pub uninterp spec fn register_receive_msg_outcome(
    your_contracts_code_hash: Seq<char>,
    block_size: usize,
    callback_code_hash: Seq<char>,
    contract_addr: Seq<char>,
) -> Option<Message>;

/// The message that the token toolkit's `snip20::set_viewing_key_msg` builds
/// to set the viewing key `key` with the token contract at `contract_addr`,
/// without padding text, padded to `block_size`; `None` where it builds
/// none.
pub uninterp spec fn set_viewing_key_msg_outcome(
    key: Seq<char>,
    block_size: usize,
    callback_code_hash: Seq<char>,
    contract_addr: Seq<char>,
) -> Option<Message>;

/// Calls the token toolkit's `snip20::transfer_msg`. The contract claims
/// that what comes back depends on the arguments alone: the toolkit encodes
/// the request, pads it and wraps it for the token contract. It claims
/// nothing of the error.
#[verifier::external_body]
fn transfer_msg(recipient: &String, amount: u128, block_size: usize, token: &SecretContract) -> (built:
    Result<Message, StdError>)
    ensures
        match built {
            Ok(message) => transfer_msg_outcome(
                recipient@,
                amount,
                block_size,
                token.contract_hash@,
                token.address@,
            ) == Some(message),
            Err(_) => transfer_msg_outcome(
                recipient@,
                amount,
                block_size,
                token.contract_hash@,
                token.address@,
            ) is None,
        },
{
    let built = secret_toolkit::snip20::transfer_msg(
        HumanAddr(recipient.clone()),
        Uint128(amount),
        None,
        None,
        block_size,
        token.contract_hash.clone(),
        HumanAddr(token.address.clone()),
    );
    match built {
        Ok(inner) => Ok(Message { inner }),
        Err(error) => Err(error),
    }
}

/// Calls the token toolkit's `snip20::register_receive_msg`. The contract
/// claims that what comes back depends on the arguments alone, and nothing
/// of the error.
#[verifier::external_body]
fn register_receive_msg(code_hash: &String, block_size: usize, token: &SecretContract) -> (built:
    Result<Message, StdError>)
    ensures
        match built {
            Ok(message) => register_receive_msg_outcome(
                code_hash@,
                block_size,
                token.contract_hash@,
                token.address@,
            ) == Some(message),
            Err(_) => register_receive_msg_outcome(
                code_hash@,
                block_size,
                token.contract_hash@,
                token.address@,
            ) is None,
        },
{
    let built = secret_toolkit::snip20::register_receive_msg(
        code_hash.clone(),
        None,
        block_size,
        token.contract_hash.clone(),
        HumanAddr(token.address.clone()),
    );
    match built {
        Ok(inner) => Ok(Message { inner }),
        Err(error) => Err(error),
    }
}

/// Calls the token toolkit's `snip20::set_viewing_key_msg`. The contract
/// claims that what comes back depends on the arguments alone, and nothing
/// of the error.
#[verifier::external_body]
fn set_viewing_key_msg(key: &String, block_size: usize, token: &SecretContract) -> (built: Result<
    Message,
    StdError,
>)
    ensures
        match built {
            Ok(message) => set_viewing_key_msg_outcome(
                key@,
                block_size,
                token.contract_hash@,
                token.address@,
            ) == Some(message),
            Err(_) => set_viewing_key_msg_outcome(
                key@,
                block_size,
                token.contract_hash@,
                token.address@,
            ) is None,
        },
{
    let built = secret_toolkit::snip20::set_viewing_key_msg(
        key.clone(),
        None,
        block_size,
        token.contract_hash.clone(),
        HumanAddr(token.address.clone()),
    );
    match built {
        Ok(inner) => Ok(Message { inner }),
        Err(error) => Err(error),
    }
}

/// The message that carries `instruction`, if the token toolkit builds one.
pub open spec fn message_of(instruction: InstructionView, block_size: usize) -> Option<Message> {
    match instruction.request {
        RequestView::Transfer { recipient, amount } => transfer_msg_outcome(
            recipient,
            amount,
            block_size,
            instruction.token.contract_hash,
            instruction.token.address,
        ),
        RequestView::RegisterReceive { code_hash } => register_receive_msg_outcome(
            code_hash,
            block_size,
            instruction.token.contract_hash,
            instruction.token.address,
        ),
        RequestView::SetViewingKey { key } => set_viewing_key_msg_outcome(
            key,
            block_size,
            instruction.token.contract_hash,
            instruction.token.address,
        ),
    }
}

/// Whether `messages` carry `instructions`, one each and in their order.
pub open spec fn messages_carry(
    messages: Seq<Message>,
    instructions: Seq<InstructionView>,
    block_size: usize,
) -> bool {
    &&& messages.len() == instructions.len()
    &&& forall|i: int|
        0 <= i < instructions.len() ==> message_of(#[trigger] instructions[i], block_size) == Some(
            messages[i],
        )
}

/// Whether the token toolkit builds no message for one of `instructions`.
pub open spec fn some_message_fails(instructions: Seq<InstructionView>, block_size: usize) -> bool {
    exists|i: int|
        0 <= i < instructions.len() && message_of(#[trigger] instructions[i], block_size) is None
}

/// What each of `instructions` holds.
pub open spec fn instruction_views(instructions: Seq<Instruction>) -> Seq<InstructionView> {
    Seq::new(instructions.len(), |i: int| instructions[i]@)
}

/// Builds the message that carries `instruction`.
pub fn instruction_message(instruction: &Instruction, block_size: usize) -> (built: Result<
    Message,
    ContractError,
>)
    ensures
        match built {
            Ok(message) => message_of(instruction@, block_size) == Some(message),
            Err(error) => error is Message && message_of(instruction@, block_size) is None,
        },
{
    let built = match &instruction.request {
        Request::Transfer { recipient, amount } => transfer_msg(
            recipient,
            *amount,
            block_size,
            &instruction.token,
        ),
        Request::RegisterReceive { code_hash } => register_receive_msg(
            code_hash,
            block_size,
            &instruction.token,
        ),
        Request::SetViewingKey { key } => set_viewing_key_msg(key, block_size, &instruction.token),
    };
    match built {
        Ok(message) => Ok(message),
        Err(error) => Err(ContractError::Message(error)),
    }
}

/// Builds the message for each of `instructions`, in their order. Where the
/// token toolkit builds none for one of them, its error is the answer.
pub fn instruction_messages(instructions: &Vec<Instruction>, block_size: usize) -> (built: Result<
    Vec<Message>,
    ContractError,
>)
    ensures
        match built {
            Ok(messages) => messages_carry(messages@, instruction_views(instructions@), block_size),
            Err(error) => error is Message && some_message_fails(
                instruction_views(instructions@),
                block_size,
            ),
        },
{
    let ghost views = instruction_views(instructions@);
    let mut messages: Vec<Message> = Vec::new();
    let mut i: usize = 0;
    while i < instructions.len()
        invariant
            i <= instructions.len(),
            messages.len() == i,
            views == instruction_views(instructions@),
            forall|j: int|
                0 <= j < i ==> message_of(#[trigger] views[j], block_size) == Some(messages[j]),
        decreases instructions.len() - i,
    {
        match instruction_message(&instructions[i], block_size) {
            Ok(message) => {
                messages.push(message);
            },
            Err(error) => {
                assert(message_of(views[i as int], block_size) is None);
                return Err(error);
            },
        }
        i = i + 1;
    }
    Ok(messages)
}

} // verus!
