//! The records that the ledger keeps, and the configuration it runs under.

use vstd::prelude::*;
use crate::bytes::copy_bytes;

verus! {

/// Status of an order that waits to be filled or cancelled.
pub const STATUS_OPEN: u8 = 0;

/// Status of an order that has been filled.
pub const STATUS_FILLED: u8 = 1;

/// Status of an order that its creator has cancelled.
pub const STATUS_CANCELLED: u8 = 2;

/// A token contract: where it lives and the hash of its code.
#[derive(Clone, Debug, PartialEq, Eq)]
pub struct SecretContract {
    pub address: String,
    pub contract_hash: String,
}

/// What a [`SecretContract`] holds.
pub struct SecretContractView {
    pub address: Seq<char>,
    pub contract_hash: Seq<char>,
}

impl View for SecretContract {
    type V = SecretContractView;

    open spec fn view(&self) -> SecretContractView {
        SecretContractView { address: self.address@, contract_hash: self.contract_hash@ }
    }
}

impl SecretContract {
    /// A second value with the same contents.
    pub fn copy(&self) -> (copy: SecretContract)
        ensures
            copy@ == self@,
    {
        SecretContract { address: self.address.clone(), contract_hash: self.contract_hash.clone() }
    }
}

/// What the ledger is run with: who administers it, the token it escrows
/// (`butt`), where filled orders are sent (`mount_doom`), the price of an
/// execution fee and the token that the fee is paid in (`sscrt`).
#[derive(Clone, Debug, PartialEq)]
pub struct Config {
    pub admin: String,
    pub butt: SecretContract,
    pub mount_doom: SecretContract,
    pub execution_fee: u128,
    pub sscrt: SecretContract,
}

/// What a [`Config`] holds.
pub struct ConfigView {
    pub admin: Seq<char>,
    pub butt: SecretContractView,
    pub mount_doom: SecretContractView,
    pub execution_fee: u128,
    pub sscrt: SecretContractView,
}

impl View for Config {
    type V = ConfigView;

    open spec fn view(&self) -> ConfigView {
        ConfigView {
            admin: self.admin@,
            butt: self.butt@,
            mount_doom: self.mount_doom@,
            execution_fee: self.execution_fee,
            sscrt: self.sscrt@,
        }
    }
}

/// A token that has been told to notify the ledger of what it receives.
#[derive(Clone, Debug, PartialEq, Eq)]
pub struct RegisteredToken {
    pub address: String,
    pub contract_hash: String,
    pub sum_balance: u128,
}

/// What a [`RegisteredToken`] holds.
pub struct RegisteredTokenView {
    pub address: Seq<char>,
    pub contract_hash: Seq<char>,
    pub sum_balance: u128,
}

impl View for RegisteredToken {
    type V = RegisteredTokenView;

    open spec fn view(&self) -> RegisteredTokenView {
        RegisteredTokenView {
            address: self.address@,
            contract_hash: self.contract_hash@,
            sum_balance: self.sum_balance,
        }
    }
}

impl RegisteredToken {
    /// A second value with the same contents.
    pub fn copy(&self) -> (copy: RegisteredToken)
        ensures
            copy@ == self@,
    {
        RegisteredToken {
            address: self.address.clone(),
            contract_hash: self.contract_hash.clone(),
            sum_balance: self.sum_balance,
        }
    }
}

/// One of the two copies of an order. `position` is where this copy is filed
/// under its holder, `other_storage_position` where its twin is filed under
/// the other holder. `creator` is the identity that the order came from.
#[derive(Clone, Debug, PartialEq)]
pub struct Order {
    pub position: u128,
    pub execution_fee: Option<u128>,
    pub other_storage_position: u128,
    pub creator: Vec<u8>,
    pub amount: u128,
    pub to: String,
    pub status: u8,
    pub created_at_block_time: u64,
    pub created_at_block_height: u64,
}

/// What an [`Order`] holds.
pub struct OrderView {
    pub position: u128,
    pub execution_fee: Option<u128>,
    pub other_storage_position: u128,
    pub creator: Seq<u8>,
    pub amount: u128,
    pub to: Seq<char>,
    pub status: u8,
    pub created_at_block_time: u64,
    pub created_at_block_height: u64,
}

impl OrderView {
    /// The twin of this copy: the same order as its other holder files it.
    pub open spec fn mirrored(self) -> OrderView {
        OrderView {
            position: self.other_storage_position,
            other_storage_position: self.position,
            ..self
        }
    }

    /// This copy with an execution fee attached.
    pub open spec fn with_fee(self, fee: u128) -> OrderView {
        OrderView { execution_fee: Some(fee), ..self }
    }

    /// This copy after cancellation.
    pub open spec fn cancelled(self) -> OrderView {
        OrderView { status: STATUS_CANCELLED, ..self }
    }

    /// Whether two copies agree in all that creation fixes for good: who
    /// created the order, for whom, how much, and when.
    pub open spec fn same_origin(self, other: OrderView) -> bool {
        &&& self.creator == other.creator
        &&& self.amount == other.amount
        &&& self.to == other.to
        &&& self.created_at_block_time == other.created_at_block_time
        &&& self.created_at_block_height == other.created_at_block_height
    }
}

impl View for Order {
    type V = OrderView;

    open spec fn view(&self) -> OrderView {
        OrderView {
            position: self.position,
            execution_fee: self.execution_fee,
            other_storage_position: self.other_storage_position,
            creator: self.creator@,
            amount: self.amount,
            to: self.to@,
            status: self.status,
            created_at_block_time: self.created_at_block_time,
            created_at_block_height: self.created_at_block_height,
        }
    }
}

/// An order as it is shown to the outside: its creator by address.
#[derive(Clone, Debug, PartialEq)]
pub struct HumanizedOrder {
    pub position: u128,
    pub execution_fee: Option<u128>,
    pub creator: String,
    pub amount: u128,
    pub to: String,
    pub status: u8,
    pub created_at_block_time: u64,
    pub created_at_block_height: u64,
}

/// What a [`HumanizedOrder`] holds.
pub struct HumanizedOrderView {
    pub position: u128,
    pub execution_fee: Option<u128>,
    pub creator: Seq<char>,
    pub amount: u128,
    pub to: Seq<char>,
    pub status: u8,
    pub created_at_block_time: u64,
    pub created_at_block_height: u64,
}

impl View for HumanizedOrder {
    type V = HumanizedOrderView;

    open spec fn view(&self) -> HumanizedOrderView {
        HumanizedOrderView {
            position: self.position,
            execution_fee: self.execution_fee,
            creator: self.creator@,
            amount: self.amount,
            to: self.to@,
            status: self.status,
            created_at_block_time: self.created_at_block_time,
            created_at_block_height: self.created_at_block_height,
        }
    }
}

impl Order {
    /// A second value with the same contents.
    pub fn copy(&self) -> (copy: Order)
        ensures
            copy@ == self@,
    {
        Order {
            position: self.position,
            execution_fee: self.execution_fee,
            other_storage_position: self.other_storage_position,
            creator: copy_bytes(&self.creator),
            amount: self.amount,
            to: self.to.clone(),
            status: self.status,
            created_at_block_time: self.created_at_block_time,
            created_at_block_height: self.created_at_block_height,
        }
    }

    /// The twin of this copy: position and twin's position change places.
    pub fn mirrored(self) -> (twin: Order)
        ensures
            twin@ == self@.mirrored(),
    {
        Order {
            position: self.other_storage_position,
            execution_fee: self.execution_fee,
            other_storage_position: self.position,
            creator: self.creator,
            amount: self.amount,
            to: self.to,
            status: self.status,
            created_at_block_time: self.created_at_block_time,
            created_at_block_height: self.created_at_block_height,
        }
    }

    /// The order as it is shown to the outside. `creator` is the address that
    /// the caller has resolved the creator's identity to; every other field
    /// is taken over as it stands, and the twin's position is left out.
    pub fn into_humanized(self, creator: String) -> (shown: HumanizedOrder)
        ensures
            shown@ == (HumanizedOrderView {
                position: self@.position,
                execution_fee: self@.execution_fee,
                creator: creator@,
                amount: self@.amount,
                to: self@.to,
                status: self@.status,
                created_at_block_time: self@.created_at_block_time,
                created_at_block_height: self@.created_at_block_height,
            }),
    {
        HumanizedOrder {
            position: self.position,
            execution_fee: self.execution_fee,
            creator,
            amount: self.amount,
            to: self.to,
            status: self.status,
            created_at_block_time: self.created_at_block_time,
            created_at_block_height: self.created_at_block_height,
        }
    }
}

} // verus!
