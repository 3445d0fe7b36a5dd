//! The operations on orders: creation, attachment of an execution fee,
//! cancellation, and the two queries.
//!
//! Every order is filed twice: under its creator, and under the contract
//! that runs the ledger. Each operation that changes an order writes both
//! copies. An operation that is refused leaves the ledger as it was.

use vstd::prelude::*;
use crate::bytes::copy_bytes;
use crate::errors::ContractError;
use crate::ledger::{
    append_order, order_at_position, storage_count, update_both_copies, Ledger, LedgerView,
};
use crate::messages::{
    instruction_messages, instruction_views, messages_carry, some_message_fails, Instruction,
    InstructionView, Message, Request, RequestView, BLOCK_SIZE,
};
use crate::state::{
    Config, ConfigView, Order, OrderView, SecretContract, STATUS_CANCELLED, STATUS_OPEN,
};
use crate::validations::{authorize, is_allowed, validate_human_addr, validate_uint128};

verus! {

/// The circumstances of a call: who sent it, which contract runs the ledger
/// and the hash of its code, and the time and height of the current block.
#[derive(Clone, Debug, PartialEq)]
pub struct Env {
    pub sender: String,
    pub contract_address: String,
    pub contract_code_hash: String,
    pub block_time: u64,
    pub block_height: u64,
}

/// What an operation on an order hands back: the messages to dispatch, and
/// the order as the caller holds it after the operation.
#[derive(Debug, PartialEq)]
pub struct OrderResponse {
    pub messages: Vec<Message>,
    pub order: Order,
}

/// What a ledger is set up with: the tokens it works with and the price of an
/// execution fee.
#[derive(Clone, Debug, PartialEq)]
pub struct InitMsg {
    pub butt: SecretContract,
    pub mount_doom: SecretContract,
    pub execution_fee: u128,
    pub sscrt: SecretContract,
}

/// The configuration of a ledger that `env.sender` sets up with `msg`: the
/// sender becomes its administrator.
pub fn init(env: &Env, msg: InitMsg) -> (config: Config)
    ensures
        config@ == (ConfigView {
            admin: env.sender@,
            butt: msg.butt@,
            mount_doom: msg.mount_doom@,
            execution_fee: msg.execution_fee,
            sscrt: msg.sscrt@,
        }),
{
    Config {
        admin: env.sender.clone(),
        butt: msg.butt,
        mount_doom: msg.mount_doom,
        execution_fee: msg.execution_fee,
        sscrt: msg.sscrt,
    }
}

/// Sets the price of an execution fee. Only the administrator may do so: for
/// every other sender the answer is `Unauthorized`, and the configuration
/// stays as it is.
pub fn update_config(config: &mut Config, env: &Env, execution_fee: u128) -> (updated: Result<
    (),
    ContractError,
>)
    ensures
        match updated {
            Ok(()) => env.sender@ == old(config).admin@ && final(config)@ == (ConfigView {
                execution_fee,
                ..old(config)@
            }),
            Err(error) => env.sender@ != old(config).admin@ && error == ContractError::Unauthorized
                && final(config)@ == old(config)@,
        },
{
    let allowed = vec![config.admin.clone()];
    assert(is_allowed(allowed@, env.sender@) <==> env.sender@ == config.admin@) by {
        assert(allowed@[0]@ == config.admin@);
    }
    authorize(allowed, &env.sender)?;
    config.execution_fee = execution_fee;
    Ok(())
}

/// The copy that the contract files of an order that `creator` creates in the
/// ledger `s`: both holders file it at their next position.
pub open spec fn new_contract_order(
    s: LedgerView,
    env: Env,
    contract: Seq<u8>,
    creator: Seq<u8>,
    amount: u128,
    to: Seq<char>,
) -> OrderView {
    OrderView {
        position: s.count(contract),
        execution_fee: None,
        other_storage_position: s.count(creator),
        creator,
        amount,
        to,
        status: STATUS_OPEN,
        created_at_block_time: env.block_time,
        created_at_block_height: env.block_height,
    }
}

/// What creation does to the ledger `s`, and the copy of the new order that
/// its creator holds; or why it is refused. Only the escrowed token may
/// report an order, and a holder whose counter is at its end can take none.
pub open spec fn create_order_outcome(
    s: LedgerView,
    env: Env,
    config: Config,
    contract: Seq<u8>,
    creator: Seq<u8>,
    amount: u128,
    to: Seq<char>,
) -> Result<(LedgerView, OrderView), ContractError> {
    if env.sender@ != config.butt.address@ {
        Err(ContractError::Unauthorized)
    } else if s.count(contract) == u128::MAX || s.count(creator) == u128::MAX {
        Err(ContractError::TooManyOrders)
    } else {
        let filed = new_contract_order(s, env, contract, creator, amount, to);
        Ok((s.append(contract, filed).append(creator, filed.mirrored()), filed.mirrored()))
    }
}

/// Creates an order of `amount` for `to`, on behalf of `creator_address`:
/// files one copy under the contract and one under the creator, each at the
/// holder's next position, and moves both counters on.
pub fn create_order(
    store: &mut Ledger,
    env: &Env,
    config: &Config,
    contract_address: &Vec<u8>,
    creator_address: &Vec<u8>,
    amount: u128,
    to: String,
) -> (created: Result<OrderResponse, ContractError>)
    ensures
        match created {
            Ok(response) => {
                &&& create_order_outcome(
                    old(store)@,
                    *env,
                    *config,
                    contract_address@,
                    creator_address@,
                    amount,
                    to@,
                ) == Ok::<(LedgerView, OrderView), ContractError>((final(store)@, response.order@))
                &&& response.messages@.len() == 0
            },
            Err(error) => {
                &&& create_order_outcome(
                    old(store)@,
                    *env,
                    *config,
                    contract_address@,
                    creator_address@,
                    amount,
                    to@,
                ) == Err::<(LedgerView, OrderView), ContractError>(error)
                &&& final(store)@ == old(store)@
            },
        },
{
    let allowed = vec![config.butt.address.clone()];
    assert(is_allowed(allowed@, env.sender@) <==> env.sender@ == config.butt.address@) by {
        assert(allowed@[0]@ == config.butt.address@);
    }
    authorize(allowed, &env.sender)?;
    let contract_order_position = storage_count(store, contract_address);
    let creator_order_position = storage_count(store, creator_address);
    if contract_order_position == u128::MAX || creator_order_position == u128::MAX {
        return Err(ContractError::TooManyOrders);
    }
    let order = Order {
        position: contract_order_position,
        execution_fee: None,
        other_storage_position: creator_order_position,
        creator: copy_bytes(creator_address),
        amount,
        to,
        status: STATUS_OPEN,
        created_at_block_time: env.block_time,
        created_at_block_height: env.block_height,
    };
    append_order(store, &order, contract_address)?;
    let order = order.mirrored();
    append_order(store, &order, creator_address)?;
    Ok(OrderResponse { messages: Vec::new(), order })
}

/// What the attachment of an execution fee does to the ledger `s`, and the
/// payer's copy of the order after it; or why it is refused.
///
/// The fee goes to the order that `user` holds at its last position. It must
/// arrive through the fee token and in the configured amount, in the block in
/// which the order was created, on an open order that has no fee yet. Both
/// copies of the order get the fee, and nothing else is touched.
pub open spec fn set_execution_fee_outcome(
    s: LedgerView,
    env: Env,
    config: Config,
    contract: Seq<u8>,
    user: Seq<u8>,
    amount: u128,
) -> Result<(LedgerView, OrderView), ContractError> {
    if env.sender@ != config.sscrt.address@ {
        Err(ContractError::WrongFeeToken)
    } else if amount != config.execution_fee {
        Err(ContractError::WrongFeeAmount)
    } else if s.count(user) == 0 {
        Err(ContractError::OrderDoesNotExist)
    } else if !s.has_order(user, (s.count(user) - 1) as u128) {
        Err(ContractError::NotFound)
    } else {
        let order = s.order(user, (s.count(user) - 1) as u128);
        if order.created_at_block_height != env.block_height {
            Err(ContractError::FeeOutsideCreationBlock)
        } else if order.execution_fee is Some {
            Err(ContractError::FeeAlreadySet)
        } else if order.status != STATUS_OPEN {
            Err(ContractError::OrderNotOpen)
        } else {
            Ok(
                (
                    s.put_both(
                        user,
                        (s.count(user) - 1) as u128,
                        order.with_fee(amount),
                        contract,
                    ),
                    order.with_fee(amount),
                ),
            )
        }
    }
}

/// Attaches the execution fee of `amount` to the order that `user_address`
/// holds at its last position, on both of its copies.
pub fn set_execution_fee_for_order(
    store: &mut Ledger,
    env: &Env,
    config: &Config,
    contract_address: &Vec<u8>,
    user_address: &Vec<u8>,
    amount: u128,
) -> (set: Result<OrderResponse, ContractError>)
    ensures
        match set {
            Ok(response) => {
                &&& set_execution_fee_outcome(
                    old(store)@,
                    *env,
                    *config,
                    contract_address@,
                    user_address@,
                    amount,
                ) == Ok::<(LedgerView, OrderView), ContractError>((final(store)@, response.order@))
                &&& response.messages@.len() == 0
            },
            Err(error) => {
                &&& set_execution_fee_outcome(
                    old(store)@,
                    *env,
                    *config,
                    contract_address@,
                    user_address@,
                    amount,
                ) == Err::<(LedgerView, OrderView), ContractError>(error)
                &&& final(store)@ == old(store)@
            },
        },
{
    validate_human_addr(&config.sscrt.address, &env.sender, ContractError::WrongFeeToken)?;
    validate_uint128(config.execution_fee, amount, ContractError::WrongFeeAmount)?;
    let next_order_position = storage_count(store, user_address);
    if next_order_position == 0 {
        return Err(ContractError::OrderDoesNotExist);
    }
    let order_position = next_order_position - 1;
    let mut creator_order = order_at_position(store, user_address, order_position)?;
    if creator_order.created_at_block_height != env.block_height {
        return Err(ContractError::FeeOutsideCreationBlock);
    }
    if creator_order.execution_fee.is_some() {
        return Err(ContractError::FeeAlreadySet);
    }
    if creator_order.status != STATUS_OPEN {
        return Err(ContractError::OrderNotOpen);
    }
    creator_order.execution_fee = Some(amount);
    update_both_copies(
        store,
        user_address,
        order_position,
        creator_order.copy(),
        contract_address,
    );
    Ok(OrderResponse { messages: Vec::new(), order: creator_order })
}

/// The order that `address` holds at `position`, provided that it is open;
/// or why it cannot be cancelled.
pub open spec fn open_order_outcome(s: LedgerView, address: Seq<u8>, position: u128) -> Result<
    OrderView,
    ContractError,
> {
    if !s.has_order(address, position) {
        Err(ContractError::NotFound)
    } else if s.order(address, position).status != STATUS_OPEN {
        Err(ContractError::OrderClosed)
    } else {
        Ok(s.order(address, position))
    }
}

/// The order that `address` holds at `position`, provided that it is open.
pub fn open_order_at(store: &Ledger, address: &Vec<u8>, position: u128) -> (found: Result<
    Order,
    ContractError,
>)
    ensures
        match found {
            Ok(order) => open_order_outcome(store@, address@, position) == Ok::<
                OrderView,
                ContractError,
            >(order@),
            Err(error) => open_order_outcome(store@, address@, position) == Err::<
                OrderView,
                ContractError,
            >(error),
        },
{
    let order = order_at_position(store, address, position)?;
    if order.status != STATUS_OPEN {
        return Err(ContractError::OrderClosed);
    }
    Ok(order)
}

/// What is owed back when `order` is cancelled: its amount in the escrowed
/// token and, where it has one, its execution fee in the fee token, both to
/// `recipient`, the address of its creator, and neither rounded nor reduced.
pub open spec fn refunds(order: OrderView, recipient: Seq<char>, config: ConfigView) -> Seq<
    InstructionView,
> {
    let amount = InstructionView {
        token: config.butt,
        request: RequestView::Transfer { recipient, amount: order.amount },
    };
    match order.execution_fee {
        Some(fee) => seq![
            amount,
            InstructionView {
                token: config.sscrt,
                request: RequestView::Transfer { recipient, amount: fee },
            },
        ],
        None => seq![amount],
    }
}

/// The transfers that give back what `order` holds in escrow.
pub fn refund_transfers(order: &Order, recipient: &String, config: &Config) -> (transfers: Vec<
    Instruction,
>)
    ensures
        instruction_views(transfers@) == refunds(order@, recipient@, config@),
{
    let mut transfers: Vec<Instruction> = Vec::new();
    transfers.push(
        Instruction {
            token: config.butt.copy(),
            request: Request::Transfer { recipient: recipient.clone(), amount: order.amount },
        },
    );
    if let Some(fee) = order.execution_fee {
        transfers.push(
            Instruction {
                token: config.sscrt.copy(),
                request: Request::Transfer { recipient: recipient.clone(), amount: fee },
            },
        );
    }
    transfers
}

/// Marks as cancelled both copies of `order`, which `holder_address` holds
/// at `position`, and hands `messages` on with the cancelled order. No other
/// order and no counter is touched.
pub fn complete_cancellation(
    store: &mut Ledger,
    holder_address: &Vec<u8>,
    position: u128,
    order: Order,
    contract_address: &Vec<u8>,
    messages: Vec<Message>,
) -> (response: OrderResponse)
    ensures
        response.messages@ == messages@,
        response.order@ == order@.cancelled(),
        final(store)@ == old(store)@.put_both(
            holder_address@,
            position,
            order@.cancelled(),
            contract_address@,
        ),
{
    let mut order = order;
    order.status = STATUS_CANCELLED;
    update_both_copies(store, holder_address, position, order.copy(), contract_address);
    OrderResponse { messages, order }
}

/// Cancels the order that `sender_address` holds at `position`, on both of
/// its copies, and builds the messages that refund what the order held in
/// escrow to `creator`: the address that the caller has resolved the
/// identity of the order's creator to.
///
/// It is refused with `NotFound` where the sender holds no order there, and
/// with `OrderClosed` where the order is not open. It is refused with the
/// token toolkit's error where that builds no message for a refund.
pub fn cancel_order(
    store: &mut Ledger,
    config: &Config,
    contract_address: &Vec<u8>,
    sender_address: &Vec<u8>,
    position: u128,
    creator: &String,
) -> (cancelled: Result<OrderResponse, ContractError>)
    ensures
        match cancelled {
            Ok(response) => {
                &&& open_order_outcome(old(store)@, sender_address@, position) matches Ok(order)
                &&& response.order@ == order.cancelled()
                &&& messages_carry(response.messages@, refunds(order, creator@, config@), BLOCK_SIZE)
                &&& final(store)@ == old(store)@.put_both(
                    sender_address@,
                    position,
                    order.cancelled(),
                    contract_address@,
                )
            },
            Err(error) => {
                &&& final(store)@ == old(store)@
                &&& match open_order_outcome(old(store)@, sender_address@, position) {
                    Ok(order) => error is Message && some_message_fails(
                        refunds(order, creator@, config@),
                        BLOCK_SIZE,
                    ),
                    Err(refusal) => error == refusal,
                }
            },
        },
{
    let order = open_order_at(store, sender_address, position)?;
    let transfers = refund_transfers(&order, creator, config);
    let messages = instruction_messages(&transfers, BLOCK_SIZE)?;
    Ok(complete_cancellation(store, sender_address, position, order, contract_address, messages))
}

/// The position after the last one of a page: the `page * page_size` most
/// recent of `total` positions are skipped.
pub open spec fn page_end(total: u128, page: u128, page_size: u128) -> u128 {
    if page * page_size >= total {
        0
    } else {
        (total - page * page_size) as u128
    }
}

/// The first position of a page: a page holds `page_size` positions, or as
/// many as are left.
pub open spec fn page_start(total: u128, page: u128, page_size: u128) -> u128 {
    let end = page_end(total, page, page_size);
    if end <= page_size {
        0
    } else {
        (end - page_size) as u128
    }
}

/// The positions of a page, the most recent first.
pub open spec fn page_positions(total: u128, page: u128, page_size: u128) -> Seq<u128> {
    let start = page_start(total, page, page_size);
    let end = page_end(total, page, page_size);
    Seq::new((end - start) as nat, |i: int| (end - 1 - i) as u128)
}

/// The first position of a page of `page_size` among `total` positions, and
/// the position after its last.
pub fn page_window(total: u128, page: u128, page_size: u128) -> (window: (u128, u128))
    ensures
        window.0 == page_start(total, page, page_size),
        window.1 == page_end(total, page, page_size),
        window.0 <= window.1 <= total,
        window.1 - window.0 <= page_size,
{
    let end = match page.checked_mul(page_size) {
        Some(offset) => total.saturating_sub(offset),
        None => 0,
    };
    let start = end.saturating_sub(page_size);
    (start, end)
}

/// Whether `address` holds an order at each of `positions`.
pub open spec fn holds_all(s: LedgerView, address: Seq<u8>, positions: Seq<u128>) -> bool {
    forall|i: int| 0 <= i < positions.len() ==> s.has_order(address, #[trigger] positions[i])
}

/// The orders that `address` holds at `positions`, in their order.
pub open spec fn orders_at(s: LedgerView, address: Seq<u8>, positions: Seq<u128>) -> Seq<OrderView> {
    Seq::new(positions.len(), |i: int| s.order(address, positions[i]))
}

/// What each of `orders` holds.
pub open spec fn order_views(orders: Seq<Order>) -> Seq<OrderView> {
    Seq::new(orders.len(), |i: int| orders[i]@)
}

/// A page of the orders that `for_address` holds, the most recent first, and
/// the number of all its orders. Page 0 holds the `page_size` most recent
/// ones, page 1 those before them, and so on; a page beyond the first order
/// is empty. Where a position of the page holds no order, the answer is
/// `NotFound`.
pub fn get_orders(store: &Ledger, for_address: &Vec<u8>, page: u128, page_size: u128) -> (found:
    Result<(Vec<Order>, u128), ContractError>)
    ensures
        match found {
            Ok((orders, total)) => {
                &&& total == store@.count(for_address@)
                &&& holds_all(store@, for_address@, page_positions(total, page, page_size))
                &&& order_views(orders@) == orders_at(
                    store@,
                    for_address@,
                    page_positions(total, page, page_size),
                )
            },
            Err(error) => {
                &&& error == ContractError::NotFound
                &&& !holds_all(
                    store@,
                    for_address@,
                    page_positions(store@.count(for_address@), page, page_size),
                )
            },
        },
{
    let total = storage_count(store, for_address);
    let (start, end) = page_window(total, page, page_size);
    let ghost positions = page_positions(total, page, page_size);
    let mut orders: Vec<Order> = Vec::new();
    let mut position = end;
    while position > start
        invariant
            start <= position <= end,
            total == store@.count(for_address@),
            positions == page_positions(total, page, page_size),
            positions.len() == end - start,
            start == page_start(total, page, page_size),
            end == page_end(total, page, page_size),
            orders.len() == end - position,
            forall|i: int|
                0 <= i < end - position ==> store@.has_order(
                    for_address@,
                    #[trigger] positions[i],
                ) && orders[i]@ == store@.order(for_address@, positions[i]),
        decreases position,
    {
        position = position - 1;
        match order_at_position(store, for_address, position) {
            Ok(order) => {
                orders.push(order);
            },
            Err(error) => {
                assert(!store@.has_order(for_address@, positions[end - 1 - position]));
                return Err(error);
            },
        }
    }
    Ok((orders, total))
}

/// The orders that `address` holds at `positions`, in the order of
/// `positions`. Where one of the positions holds no order, the answer is
/// `NotFound` and no order is handed out.
pub fn orders_by_positions(store: &Ledger, address: &Vec<u8>, positions: &Vec<u128>) -> (found:
    Result<Vec<Order>, ContractError>)
    ensures
        match found {
            Ok(orders) => {
                &&& holds_all(store@, address@, positions@)
                &&& order_views(orders@) == orders_at(store@, address@, positions@)
            },
            Err(error) => {
                &&& error == ContractError::NotFound
                &&& !holds_all(store@, address@, positions@)
            },
        },
{
    let mut orders: Vec<Order> = Vec::new();
    let mut i: usize = 0;
    while i < positions.len()
        invariant
            i <= positions.len(),
            orders.len() == i,
            forall|j: int|
                0 <= j < i ==> store@.has_order(address@, #[trigger] positions[j]) && orders[j]@
                    == store@.order(address@, positions[j]),
        decreases positions.len() - i,
    {
        match order_at_position(store, address, positions[i]) {
            Ok(order) => {
                orders.push(order);
            },
            Err(error) => {
                return Err(error);
            },
        }
        i = i + 1;
    }
    Ok(orders)
}

} // verus!
