//! What holds of every ledger that the operations on orders have built, and
//! of the operations one after another.

use vstd::prelude::*;
use crate::contract::{
    create_order_outcome, holds_all, new_contract_order, open_order_outcome, page_end,
    page_positions, page_start, refunds, set_execution_fee_outcome, Env,
};
use crate::messages::{InstructionView, RequestView};
use crate::errors::{ContractError, ErrorKind};
use crate::ledger::LedgerView;
use crate::state::{Config, ConfigView, OrderView, STATUS_CANCELLED, STATUS_OPEN};

verus! {

impl LedgerView {
    /// The positions of each identity are those below its counter: none is
    /// left out, and none lies beyond.
    pub open spec fn dense(self) -> bool {
        forall|address: Seq<u8>, position: u128| #[trigger]
            self.has_order(address, position) <==> position < self.count(address)
    }

    /// Each order names the position that it is filed at.
    pub open spec fn filed_in_place(self) -> bool {
        forall|address: Seq<u8>, position: u128| #[trigger]
            self.has_order(address, position) ==> self.order(address, position).position
                == position
    }

    /// What an identity other than the contract holds, it has created.
    pub open spec fn held_by_creator(self, contract: Seq<u8>) -> bool {
        forall|address: Seq<u8>, position: u128| #[trigger]
            self.has_order(address, position) && address != contract ==> self.order(
                address,
                position,
            ).creator == address
    }

    /// Each order has its twin where it says: under the other holder, at the
    /// position that the order names as its twin's, and the twin is the
    /// order with the two positions exchanged and nothing else changed.
    pub open spec fn mirrored(self, contract: Seq<u8>) -> bool {
        forall|address: Seq<u8>, position: u128| #[trigger]
            self.has_order(address, position) ==> {
                let order = self.order(address, position);
                let holder = Self::twin_holder(contract, address, order);
                &&& self.has_order(holder, order.other_storage_position)
                &&& self.order(holder, order.other_storage_position) == order.mirrored()
            }
    }

    /// What holds of a ledger that `contract` runs.
    pub open spec fn consistent(self, contract: Seq<u8>) -> bool {
        &&& self.dense()
        &&& self.filed_in_place()
        &&& self.held_by_creator(contract)
        &&& self.mirrored(contract)
    }
}

/// A ledger in which nothing has happened yet is consistent.
pub proof fn lemma_empty_is_consistent(contract: Seq<u8>)
    ensures
        LedgerView::empty().consistent(contract),
{
}

/// Creation keeps a consistent ledger consistent: the new order has its twin,
/// both holders have one position more, and no other order is touched.
pub proof fn lemma_create_keeps_consistent(
    s: LedgerView,
    env: Env,
    config: Config,
    contract: Seq<u8>,
    creator: Seq<u8>,
    amount: u128,
    to: Seq<char>,
)
    requires
        s.consistent(contract),
        create_order_outcome(s, env, config, contract, creator, amount, to) is Ok,
    ensures
        create_order_outcome(s, env, config, contract, creator, amount, to)->Ok_0.0.consistent(
            contract,
        ),
{
    let after = create_order_outcome(s, env, config, contract, creator, amount, to)->Ok_0.0;
    let filed = new_contract_order(s, env, contract, creator, amount, to);
    let twin = filed.mirrored();
    assert forall|address: Seq<u8>, position: u128| #[trigger]
        after.has_order(address, position) <==> s.has_order(address, position) || (address
            == contract && position == filed.position) || (address == creator && position
            == twin.position) by {}
    assert forall|address: Seq<u8>, position: u128| #[trigger]
        after.has_order(address, position) implies after.order(address, position) == (if address
        == creator && position == twin.position {
        twin
    } else if address == contract && position == filed.position {
        filed
    } else {
        s.order(address, position)
    }) by {}
    assert(after.mirrored(contract)) by {
        assert forall|address: Seq<u8>, position: u128| #[trigger]
            after.has_order(address, position) implies {
            let order = after.order(address, position);
            let holder = LedgerView::twin_holder(contract, address, order);
            &&& after.has_order(holder, order.other_storage_position)
            &&& after.order(holder, order.other_storage_position) == order.mirrored()
        } by {}
    }
}

/// Writing both copies of an order changes these two records and nothing
/// else: every other order stays as it is, and so does every counter.
pub proof fn lemma_put_both_effects(
    s: LedgerView,
    holder: Seq<u8>,
    position: u128,
    order: OrderView,
    contract: Seq<u8>,
)
    ensures
        forall|address: Seq<u8>| #[trigger]
            s.put_both(holder, position, order, contract).count(address) == s.count(address),
        forall|address: Seq<u8>, at: u128| #[trigger]
            s.put_both(holder, position, order, contract).has_order(address, at) <==> s.has_order(
                address,
                at,
            ) || (address == holder && at == position) || (address == LedgerView::twin_holder(
                contract,
                holder,
                order,
            ) && at == order.other_storage_position),
        forall|address: Seq<u8>, at: u128| #[trigger]
            s.put_both(holder, position, order, contract).order(address, at) == (if address
                == LedgerView::twin_holder(contract, holder, order) && at
                == order.other_storage_position {
                order.mirrored()
            } else if address == holder && at == position {
                order
            } else {
                s.order(address, at)
            }),
{
}

/// Updating both copies of an order, with the positions and the creator left
/// as they are, keeps a consistent ledger consistent: afterwards the holder
/// holds the updated order, the other holder holds its twin, and the two
/// still point at each other.
pub proof fn lemma_update_keeps_consistent(
    s: LedgerView,
    contract: Seq<u8>,
    holder: Seq<u8>,
    position: u128,
    updated: OrderView,
)
    requires
        s.consistent(contract),
        s.has_order(holder, position),
        updated.position == s.order(holder, position).position,
        updated.other_storage_position == s.order(holder, position).other_storage_position,
        updated.creator == s.order(holder, position).creator,
    ensures
        s.put_both(holder, position, updated, contract).consistent(contract),
        s.put_both(holder, position, updated, contract).order(holder, position) == updated,
        s.put_both(holder, position, updated, contract).order(
            LedgerView::twin_holder(contract, holder, updated),
            updated.other_storage_position,
        ) == updated.mirrored(),
{
    let after = s.put_both(holder, position, updated, contract);
    let order = s.order(holder, position);
    let twin_holder = LedgerView::twin_holder(contract, holder, order);
    lemma_put_both_effects(s, holder, position, updated, contract);
    assert(s.has_order(twin_holder, order.other_storage_position));
    assert(after.mirrored(contract)) by {
        assert forall|address: Seq<u8>, at: u128| #[trigger]
            after.has_order(address, at) implies {
            let found = after.order(address, at);
            let other = LedgerView::twin_holder(contract, address, found);
            &&& after.has_order(other, found.other_storage_position)
            &&& after.order(other, found.other_storage_position) == found.mirrored()
        } by {
            let before = s.order(address, at);
            let before_holder = LedgerView::twin_holder(contract, address, before);
            assert(s.has_order(before_holder, before.other_storage_position));
        }
    }
}

/// The attachment of an execution fee keeps a consistent ledger consistent,
/// whoever pays: both copies of the order get the fee.
pub proof fn lemma_set_execution_fee_keeps_consistent(
    s: LedgerView,
    env: Env,
    config: Config,
    contract: Seq<u8>,
    user: Seq<u8>,
    amount: u128,
)
    requires
        s.consistent(contract),
        set_execution_fee_outcome(s, env, config, contract, user, amount) is Ok,
    ensures
        set_execution_fee_outcome(s, env, config, contract, user, amount)->Ok_0.0.consistent(
            contract,
        ),
{
    let position = (s.count(user) - 1) as u128;
    let order = s.order(user, position);
    lemma_update_keeps_consistent(s, contract, user, position, order.with_fee(amount));
}

/// Cancellation keeps a consistent ledger consistent, whoever cancels: both
/// copies of the order are cancelled.
pub proof fn lemma_cancel_keeps_consistent(
    s: LedgerView,
    contract: Seq<u8>,
    sender: Seq<u8>,
    position: u128,
)
    requires
        s.consistent(contract),
        open_order_outcome(s, sender, position) is Ok,
    ensures
        s.put_both(sender, position, s.order(sender, position).cancelled(), contract).consistent(
            contract,
        ),
{
    let order = s.order(sender, position);
    lemma_update_keeps_consistent(s, contract, sender, position, order.cancelled());
}

/// A cancellation changes the two copies of one order and nothing else. In
/// a consistent ledger the caller afterwards holds the order as it was but
/// for its status, the other holder holds the twin of that, every other
/// order is as it was, and no counter has moved.
pub proof fn lemma_cancellation_touches_both_copies_only(
    s: LedgerView,
    contract: Seq<u8>,
    sender: Seq<u8>,
    position: u128,
)
    requires
        s.consistent(contract),
        open_order_outcome(s, sender, position) is Ok,
    ensures
        ({
            let order = s.order(sender, position);
            let twin_holder = LedgerView::twin_holder(contract, sender, order);
            let after = s.put_both(sender, position, order.cancelled(), contract);
            &&& after.order(sender, position) == order.cancelled()
            &&& after.order(twin_holder, order.other_storage_position)
                == order.cancelled().mirrored()
            &&& forall|address: Seq<u8>, at: u128|
                !(address == sender && at == position) && !(address == twin_holder && at
                    == order.other_storage_position) ==> (#[trigger] after.has_order(address, at)
                    <==> s.has_order(address, at)) && after.order(address, at) == s.order(
                    address,
                    at,
                )
            &&& forall|address: Seq<u8>| #[trigger] after.count(address) == s.count(address)
        }),
{
    let order = s.order(sender, position);
    lemma_update_keeps_consistent(s, contract, sender, position, order.cancelled());
    lemma_put_both_effects(s, sender, position, order.cancelled(), contract);
}

/// The attachment of an execution fee changes the two copies of one order
/// and nothing else. In a consistent ledger the payer afterwards holds the
/// order as it was but for its fee, the other holder holds the twin of that,
/// every other order is as it was, and no counter has moved.
pub proof fn lemma_execution_fee_touches_both_copies_only(
    s: LedgerView,
    env: Env,
    config: Config,
    contract: Seq<u8>,
    user: Seq<u8>,
    amount: u128,
)
    requires
        s.consistent(contract),
        set_execution_fee_outcome(s, env, config, contract, user, amount) is Ok,
    ensures
        ({
            let position = (s.count(user) - 1) as u128;
            let order = s.order(user, position);
            let twin_holder = LedgerView::twin_holder(contract, user, order);
            let after = set_execution_fee_outcome(s, env, config, contract, user, amount)->Ok_0.0;
            &&& after.order(user, position) == order.with_fee(amount)
            &&& after.order(twin_holder, order.other_storage_position) == order.with_fee(
                amount,
            ).mirrored()
            &&& forall|address: Seq<u8>, at: u128|
                !(address == user && at == position) && !(address == twin_holder && at
                    == order.other_storage_position) ==> (#[trigger] after.has_order(address, at)
                    <==> s.has_order(address, at)) && after.order(address, at) == s.order(
                    address,
                    at,
                )
            &&& forall|address: Seq<u8>| #[trigger] after.count(address) == s.count(address)
        }),
{
    let position = (s.count(user) - 1) as u128;
    let order = s.order(user, position);
    lemma_update_keeps_consistent(s, contract, user, position, order.with_fee(amount));
    lemma_put_both_effects(s, user, position, order.with_fee(amount), contract);
}

/// A refund is exact. It is made of transfers to `recipient` and of nothing
/// else: the first gives back the amount of the order, in the escrowed
/// token; a second one exists exactly where the order has an execution fee,
/// and gives back that fee, in the fee token.
pub proof fn lemma_refunds_are_exact(order: OrderView, recipient: Seq<char>, config: ConfigView)
    ensures
        refunds(order, recipient, config).len() == (if order.execution_fee is Some {
            2nat
        } else {
            1nat
        }),
        refunds(order, recipient, config)[0] == (InstructionView {
            token: config.butt,
            request: RequestView::Transfer { recipient, amount: order.amount },
        }),
        order.execution_fee matches Some(fee) ==> refunds(order, recipient, config)[1] == (
        InstructionView {
            token: config.sscrt,
            request: RequestView::Transfer { recipient, amount: fee },
        }),
{
}

/// In a consistent ledger the two copies of an order point at each other and
/// agree in everything but their positions: the order that `creator` holds at
/// `position` names the position of the contract's copy, and that copy names
/// `position`.
pub proof fn lemma_copies_mirror_each_other(
    s: LedgerView,
    contract: Seq<u8>,
    creator: Seq<u8>,
    position: u128,
)
    requires
        s.consistent(contract),
        s.has_order(creator, position),
        creator != contract,
    ensures
        ({
            let own = s.order(creator, position);
            let twin = s.order(contract, own.other_storage_position);
            &&& s.has_order(contract, own.other_storage_position)
            &&& own.position == position
            &&& twin.position == own.other_storage_position
            &&& twin.other_storage_position == position
            &&& twin.same_origin(own)
            &&& twin.creator == creator
            &&& twin.execution_fee == own.execution_fee
            &&& twin.status == own.status
        }),
{
}

/// An execution fee is set once. After it has been attached to an order, a
/// second attachment to the same order is refused, whatever amount is paid
/// and whatever the circumstances of the second call; and where the second
/// payment arrives through the fee token, the refusal is a failed
/// precondition.
pub proof fn lemma_execution_fee_is_set_once(
    s: LedgerView,
    env: Env,
    config: Config,
    contract: Seq<u8>,
    user: Seq<u8>,
    amount: u128,
    later_env: Env,
    later_config: Config,
    later_amount: u128,
)
    requires
        set_execution_fee_outcome(s, env, config, contract, user, amount) is Ok,
    ensures
        ({
            let after = set_execution_fee_outcome(s, env, config, contract, user, amount)->Ok_0.0;
            let again = set_execution_fee_outcome(
                after,
                later_env,
                later_config,
                contract,
                user,
                later_amount,
            );
            &&& again is Err
            &&& later_env.sender@ == later_config.sscrt.address@ ==> again->Err_0.spec_kind()
                == ErrorKind::PreconditionFailed
        }),
{
    let position = (s.count(user) - 1) as u128;
    let order = s.order(user, position);
    lemma_put_both_effects(s, user, position, order.with_fee(amount), contract);
}

/// An execution fee can be attached only in the block in which the order was
/// created. Where the payment is right and the order is open and has no fee,
/// the attachment succeeds at the height of creation, and at every other
/// height it is refused as a failed precondition.
pub proof fn lemma_execution_fee_is_locked_to_block(
    s: LedgerView,
    env: Env,
    config: Config,
    contract: Seq<u8>,
    user: Seq<u8>,
    amount: u128,
)
    requires
        env.sender@ == config.sscrt.address@,
        amount == config.execution_fee,
        s.count(user) > 0,
        s.has_order(user, (s.count(user) - 1) as u128),
        s.order(user, (s.count(user) - 1) as u128).execution_fee is None,
        s.order(user, (s.count(user) - 1) as u128).status == STATUS_OPEN,
    ensures
        ({
            let outcome = set_execution_fee_outcome(s, env, config, contract, user, amount);
            let created_at = s.order(user, (s.count(user) - 1) as u128).created_at_block_height;
            &&& env.block_height == created_at ==> outcome is Ok
            &&& env.block_height != created_at ==> outcome == Err::<
                (LedgerView, OrderView),
                ContractError,
            >(ContractError::FeeOutsideCreationBlock)
            &&& ContractError::FeeOutsideCreationBlock.spec_kind() == ErrorKind::PreconditionFailed
        }),
{
}

/// A fee for an order that has just been created is accepted in the block of
/// the creation, and in no other.
pub proof fn lemma_execution_fee_follows_creation(
    s: LedgerView,
    env: Env,
    config: Config,
    contract: Seq<u8>,
    creator: Seq<u8>,
    amount: u128,
    to: Seq<char>,
    later_env: Env,
    later_config: Config,
)
    requires
        create_order_outcome(s, env, config, contract, creator, amount, to) is Ok,
        later_env.sender@ == later_config.sscrt.address@,
    ensures
        ({
            let after = create_order_outcome(s, env, config, contract, creator, amount, to)->Ok_0.0;
            let outcome = set_execution_fee_outcome(
                after,
                later_env,
                later_config,
                contract,
                creator,
                later_config.execution_fee,
            );
            &&& later_env.block_height == env.block_height ==> outcome is Ok
            &&& later_env.block_height != env.block_height ==> outcome == Err::<
                (LedgerView, OrderView),
                ContractError,
            >(ContractError::FeeOutsideCreationBlock)
        }),
{
    let after = create_order_outcome(s, env, config, contract, creator, amount, to)->Ok_0.0;
    let filed = new_contract_order(s, env, contract, creator, amount, to);
    assert(after.order(creator, filed.other_storage_position) == filed.mirrored());
}

/// A cancelled order stays cancelled. After a cancellation, the copy of the
/// caller and the twin under the other holder are cancelled, and a second
/// cancellation at the same position is refused as a failed precondition.
pub proof fn lemma_cancellation_is_final(
    s: LedgerView,
    contract: Seq<u8>,
    sender: Seq<u8>,
    position: u128,
)
    requires
        open_order_outcome(s, sender, position) is Ok,
    ensures
        ({
            let order = s.order(sender, position);
            let after = s.put_both(sender, position, order.cancelled(), contract);
            let twin_holder = LedgerView::twin_holder(contract, sender, order);
            &&& after.has_order(sender, position)
            &&& after.order(sender, position).status == STATUS_CANCELLED
            &&& after.has_order(twin_holder, order.other_storage_position)
            &&& after.order(twin_holder, order.other_storage_position).status == STATUS_CANCELLED
            &&& open_order_outcome(after, sender, position) == Err::<OrderView, ContractError>(
                ContractError::OrderClosed,
            )
            &&& ContractError::OrderClosed.spec_kind() == ErrorKind::PreconditionFailed
        }),
{
    let order = s.order(sender, position);
    lemma_put_both_effects(s, sender, position, order.cancelled(), contract);
}

/// One call of creation: its circumstances, and the order that it asks for.
pub struct Creation {
    pub env: Env,
    pub creator: Seq<u8>,
    pub amount: u128,
    pub to: Seq<char>,
}

/// The ledger after the creations of `creations` have been carried out on
/// `s`, one after the other; `None` where one of them is refused.
pub open spec fn after_creations(
    s: LedgerView,
    config: Config,
    contract: Seq<u8>,
    creations: Seq<Creation>,
) -> Option<LedgerView>
    decreases creations.len(),
{
    if creations.len() == 0 {
        Some(s)
    } else {
        let last = creations.last();
        match after_creations(s, config, contract, creations.drop_last()) {
            Some(before) => match create_order_outcome(
                before,
                last.env,
                config,
                contract,
                last.creator,
                last.amount,
                last.to,
            ) {
                Ok(created) => Some(created.0),
                Err(_) => None,
            },
            None => None,
        }
    }
}

/// How many of `creations` name `creator`.
pub open spec fn creations_by(creations: Seq<Creation>, creator: Seq<u8>) -> nat
    decreases creations.len(),
{
    if creations.len() == 0 {
        0
    } else {
        creations_by(creations.drop_last(), creator) + if creations.last().creator == creator {
            1nat
        } else {
            0nat
        }
    }
}

/// The number of positions that `address` has after `creations`, begun on an
/// empty ledger: one for each creation that names it; for the contract, one
/// for each creation.
pub open spec fn positions_given(creations: Seq<Creation>, contract: Seq<u8>, address: Seq<u8>) -> nat {
    if address == contract {
        creations.len()
    } else {
        creations_by(creations, address)
    }
}

/// Creations that begin on an empty ledger leave a consistent ledger, in
/// which each identity has been given one position for each creation that
/// concerns it.
pub proof fn lemma_creations_count(config: Config, contract: Seq<u8>, creations: Seq<Creation>)
    requires
        after_creations(LedgerView::empty(), config, contract, creations) is Some,
    ensures
        after_creations(LedgerView::empty(), config, contract, creations)->Some_0.consistent(
            contract,
        ),
        forall|address: Seq<u8>| #[trigger]
            after_creations(LedgerView::empty(), config, contract, creations)->Some_0.count(
                address,
            ) == positions_given(creations, contract, address),
    decreases creations.len(),
{
    if creations.len() > 0 {
        let last = creations.last();
        let before_last = creations.drop_last();
        lemma_creations_count(config, contract, before_last);
        let before = after_creations(LedgerView::empty(), config, contract, before_last)->Some_0;
        lemma_create_keeps_consistent(
            before,
            last.env,
            config,
            contract,
            last.creator,
            last.amount,
            last.to,
        );
        let after = after_creations(LedgerView::empty(), config, contract, creations)->Some_0;
        assert forall|address: Seq<u8>| #[trigger]
            after.count(address) == positions_given(creations, contract, address) by {
            assert(before.count(address) == positions_given(before_last, contract, address));
        }
    }
}

/// The positions of a creator are dense. After creations on an empty ledger,
/// of which N name `creator`, the creator holds orders at the positions
/// 0 to N - 1 and at no other.
pub proof fn lemma_positions_are_dense(
    config: Config,
    contract: Seq<u8>,
    creations: Seq<Creation>,
    creator: Seq<u8>,
)
    requires
        after_creations(LedgerView::empty(), config, contract, creations) is Some,
        creator != contract,
    ensures
        ({
            let after = after_creations(LedgerView::empty(), config, contract, creations)->Some_0;
            &&& after.count(creator) == creations_by(creations, creator)
            &&& forall|position: u128| #[trigger]
                after.has_order(creator, position) <==> position < creations_by(
                    creations,
                    creator,
                )
        }),
{
    lemma_creations_count(config, contract, creations);
    let after = after_creations(LedgerView::empty(), config, contract, creations)->Some_0;
    assert(after.count(creator) == positions_given(creations, contract, creator));
}

/// One call of an operation that changes orders, with all that it is given.
pub enum Call {
    Create { env: Env, config: Config, creator: Seq<u8>, amount: u128, to: Seq<char> },
    SetExecutionFee { env: Env, config: Config, user: Seq<u8>, amount: u128 },
    Cancel { sender: Seq<u8>, position: u128 },
}

impl Call {
    /// Whether the call is a creation that is carried out on `s` and gives
    /// `address` a position: as the creator of the order, or as the contract.
    pub open spec fn creates_for(self, s: LedgerView, contract: Seq<u8>, address: Seq<u8>) -> bool {
        match self {
            Call::Create { env, config, creator, amount, to } => create_order_outcome(
                s,
                env,
                config,
                contract,
                creator,
                amount,
                to,
            ) is Ok && (address == creator || address == contract),
            _ => false,
        }
    }

    /// Whether the call attaches an execution fee, in a block of the given
    /// height.
    pub open spec fn attaches_fee_at(self, height: u64) -> bool {
        match self {
            Call::SetExecutionFee { env, .. } => env.block_height == height,
            _ => false,
        }
    }

    /// The ledger after the call has been carried out on `s`; `s` itself
    /// where the call is refused.
    pub open spec fn effect(self, s: LedgerView, contract: Seq<u8>) -> LedgerView {
        match self {
            Call::Create { env, config, creator, amount, to } => match create_order_outcome(
                s,
                env,
                config,
                contract,
                creator,
                amount,
                to,
            ) {
                Ok(created) => created.0,
                Err(_) => s,
            },
            Call::SetExecutionFee { env, config, user, amount } => match set_execution_fee_outcome(
                s,
                env,
                config,
                contract,
                user,
                amount,
            ) {
                Ok(set) => set.0,
                Err(_) => s,
            },
            Call::Cancel { sender, position } => match open_order_outcome(s, sender, position) {
                Ok(order) => s.put_both(sender, position, order.cancelled(), contract),
                Err(_) => s,
            },
        }
    }
}

/// Whether `ledgers` is what a ledger has gone through under `calls`: it
/// began empty, and each call either was carried out or left the ledger as it
/// was. (A cancellation is without effect also where no message can be built
/// for a refund.)
pub open spec fn is_history(ledgers: Seq<LedgerView>, calls: Seq<Call>, contract: Seq<u8>) -> bool {
    &&& ledgers.len() == calls.len() + 1
    &&& ledgers[0] == LedgerView::empty()
    &&& forall|i: int|
        0 <= i < calls.len() ==> #[trigger] ledgers[i + 1] == ledgers[i] || ledgers[i + 1]
            == calls[i].effect(ledgers[i], contract)
}

/// One call keeps a consistent ledger consistent.
pub proof fn lemma_call_keeps_consistent(s: LedgerView, call: Call, contract: Seq<u8>)
    requires
        s.consistent(contract),
    ensures
        call.effect(s, contract).consistent(contract),
{
    match call {
        Call::Create { env, config, creator, amount, to } => {
            if create_order_outcome(s, env, config, contract, creator, amount, to) is Ok {
                lemma_create_keeps_consistent(s, env, config, contract, creator, amount, to);
            }
        },
        Call::SetExecutionFee { env, config, user, amount } => {
            if set_execution_fee_outcome(s, env, config, contract, user, amount) is Ok {
                lemma_set_execution_fee_keeps_consistent(s, env, config, contract, user, amount);
            }
        },
        Call::Cancel { sender, position } => {
            if open_order_outcome(s, sender, position) is Ok {
                lemma_cancel_keeps_consistent(s, contract, sender, position);
            }
        },
    }
}

/// The two copies of every order agree at every point in time. Whatever
/// calls are made, by whomever and in whatever order, the ledger is
/// consistent after each of them: every order has its twin, the two point at each other and differ
/// in nothing but their positions, and the positions of every identity are
/// dense.
pub proof fn lemma_every_ledger_is_consistent(
    ledgers: Seq<LedgerView>,
    calls: Seq<Call>,
    contract: Seq<u8>,
    at: int,
)
    requires
        is_history(ledgers, calls, contract),
        0 <= at < ledgers.len(),
    ensures
        ledgers[at].consistent(contract),
    decreases at,
{
    if at > 0 {
        lemma_every_ledger_is_consistent(ledgers, calls, contract, at - 1);
        let before = at - 1;
        assert(ledgers[before + 1] == ledgers[before] || ledgers[before + 1]
            == calls[before].effect(ledgers[before], contract));
        lemma_call_keeps_consistent(ledgers[before], calls[before], contract);
    }
}

/// An order, once filed, stays as it was created. Under every call the
/// order that an identity holds at a position is still held there, at the
/// same positions, from the same creator, for the same recipient and over the
/// same amount; its status is as before or has gone from open to cancelled;
/// and its execution fee is as before, or was absent and has been attached by
/// a call at the height of the order's creation.
pub proof fn lemma_call_respects_orders(
    s: LedgerView,
    call: Call,
    contract: Seq<u8>,
    address: Seq<u8>,
    position: u128,
)
    requires
        s.consistent(contract),
        s.has_order(address, position),
    ensures
        ({
            let before = s.order(address, position);
            let after = call.effect(s, contract).order(address, position);
            &&& call.effect(s, contract).has_order(address, position)
            &&& after.position == before.position
            &&& after.other_storage_position == before.other_storage_position
            &&& after.same_origin(before)
            &&& after.status == before.status || (before.status == STATUS_OPEN && after.status
                == STATUS_CANCELLED)
            &&& after.execution_fee == before.execution_fee || (before.execution_fee is None
                && after.execution_fee is Some && call.attaches_fee_at(
                before.created_at_block_height,
            ))
        }),
{
    match call {
        Call::Create { env, config, creator, amount, to } => {
            if create_order_outcome(s, env, config, contract, creator, amount, to) is Ok {
                let filed = new_contract_order(s, env, contract, creator, amount, to);
                assert(!s.has_order(contract, filed.position));
                assert(!s.has_order(creator, filed.other_storage_position));
            }
        },
        Call::SetExecutionFee { env, config, user, amount } => {
            if set_execution_fee_outcome(s, env, config, contract, user, amount) is Ok {
                let last = (s.count(user) - 1) as u128;
                let order = s.order(user, last);
                lemma_put_both_effects(s, user, last, order.with_fee(amount), contract);
            }
        },
        Call::Cancel { sender, position: cancelled_at } => {
            if open_order_outcome(s, sender, cancelled_at) is Ok {
                let order = s.order(sender, cancelled_at);
                lemma_put_both_effects(s, sender, cancelled_at, order.cancelled(), contract);
            }
        },
    }
}

/// A counter moves only when an order is created, and then by one. Under
/// every call the counter of an identity stays as it is, but for a creation
/// that is carried out: that moves the counter of the creator and the counter
/// of the contract up by one.
pub proof fn lemma_call_moves_counters(s: LedgerView, call: Call, contract: Seq<u8>, address: Seq<u8>)
    ensures
        call.effect(s, contract).count(address) == s.count(address) + (if call.creates_for(
            s,
            contract,
            address,
        ) {
            1int
        } else {
            0int
        }),
{
    match call {
        Call::Create { .. } => {},
        Call::SetExecutionFee { env, config, user, amount } => {
            if set_execution_fee_outcome(s, env, config, contract, user, amount) is Ok {
                let last = (s.count(user) - 1) as u128;
                let order = s.order(user, last);
                lemma_put_both_effects(s, user, last, order.with_fee(amount), contract);
            }
        },
        Call::Cancel { sender, position } => {
            if open_order_outcome(s, sender, position) is Ok {
                let order = s.order(sender, position);
                lemma_put_both_effects(s, sender, position, order.cancelled(), contract);
            }
        },
    }
}

/// What was true of an order once stays true of it. Between two points of
/// the history of a ledger, the order that an identity holds at a position
/// stays where it is, with its creator, its recipient, its amount and the
/// block of its creation; its status stays, or goes from open to cancelled;
/// its execution fee stays, or is attached where there was none.
pub proof fn lemma_history_respects_orders(
    ledgers: Seq<LedgerView>,
    calls: Seq<Call>,
    contract: Seq<u8>,
    from: int,
    to: int,
    address: Seq<u8>,
    position: u128,
)
    requires
        is_history(ledgers, calls, contract),
        0 <= from <= to < ledgers.len(),
        ledgers[from].has_order(address, position),
    ensures
        ({
            let before = ledgers[from].order(address, position);
            let after = ledgers[to].order(address, position);
            &&& ledgers[to].has_order(address, position)
            &&& after.position == before.position
            &&& after.other_storage_position == before.other_storage_position
            &&& after.same_origin(before)
            &&& after.status == before.status || (before.status == STATUS_OPEN && after.status
                == STATUS_CANCELLED)
            &&& after.execution_fee == before.execution_fee || (before.execution_fee is None
                && after.execution_fee is Some)
        }),
    decreases to - from,
{
    if from < to {
        lemma_history_respects_orders(ledgers, calls, contract, from, to - 1, address, position);
        lemma_every_ledger_is_consistent(ledgers, calls, contract, to - 1);
        let last = to - 1;
        assert(ledgers[last + 1] == ledgers[last] || ledgers[last + 1] == calls[last].effect(
            ledgers[last],
            contract,
        ));
        lemma_call_respects_orders(ledgers[last], calls[last], contract, address, position);
    }
}

/// A page of a consistent ledger is never refused: at each of its positions
/// the identity holds an order. A page that reaches beyond the first order,
/// or a page of size 0, is empty.
pub proof fn lemma_pages_are_held(s: LedgerView, address: Seq<u8>, page: u128, page_size: u128)
    requires
        s.dense(),
    ensures
        holds_all(s, address, page_positions(s.count(address), page, page_size)),
        page * page_size >= s.count(address) || page_size == 0 ==> page_positions(
            s.count(address),
            page,
            page_size,
        ).len() == 0,
{
    let positions = page_positions(s.count(address), page, page_size);
    assert forall|i: int| 0 <= i < positions.len() implies s.has_order(
        address,
        #[trigger] positions[i],
    ) by {}
}

/// In a consistent ledger a lookup of many positions is answered exactly if
/// each of them lies below the counter of the identity.
pub proof fn lemma_lookup_needs_given_positions(
    s: LedgerView,
    address: Seq<u8>,
    positions: Seq<u128>,
)
    requires
        s.dense(),
    ensures
        holds_all(s, address, positions) <==> forall|i: int|
            0 <= i < positions.len() ==> #[trigger] positions[i] < s.count(address),
{
    if holds_all(s, address, positions) {
        assert forall|i: int| 0 <= i < positions.len() implies #[trigger] positions[i] < s.count(
            address,
        ) by {}
    }
    if forall|i: int| 0 <= i < positions.len() ==> #[trigger] positions[i] < s.count(address) {
        assert forall|i: int| 0 <= i < positions.len() implies s.has_order(
            address,
            #[trigger] positions[i],
        ) by {}
    }
}

/// The pages of a size other than 0 share out the positions: each position
/// below `total` lies on one page and on no other, and the pages follow each
/// other from the most recent position down.
pub proof fn lemma_pages_share_out_positions(
    total: u128,
    page: u128,
    page_size: u128,
    position: u128,
)
    requires
        page_size > 0,
        position < total,
    ensures
        page_start(total, page, page_size) <= position < page_end(total, page, page_size) <==> page
            * page_size <= total - 1 - position < (page + 1) * page_size,
{
    assert((page + 1) * page_size == page * page_size + page_size) by (nonlinear_arith);
}

} // verus!
