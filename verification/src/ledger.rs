//! The position counters and the order records, per identity.
//!
//! An identity is a byte string. Each identity has a counter, which says how
//! many positions it has been given, and holds orders at positions. An order
//! is held twice, by its creator and by the contract; the writes at the end
//! of this module keep the two copies together.

use vstd::prelude::*;
use crate::byte_map::ByteMap;
use crate::bytes::{bytes_eq, copy_bytes};
use crate::errors::ContractError;
use crate::keys::{lemma_order_key_injective, order_key, spec_order_key, split_order_key};
use crate::state::{Order, OrderView};

verus! {

/// The counters and the orders of all identities.
pub struct Ledger {
    counts: ByteMap<u128>,
    orders: ByteMap<Order>,
}

/// What a ledger holds: the counter of each identity that has one, and the
/// order at each position of each identity that holds one there.
pub struct LedgerView {
    pub counts: Map<Seq<u8>, u128>,
    pub orders: Map<(Seq<u8>, u128), OrderView>,
}

impl LedgerView {
    /// A ledger in which nothing has happened yet.
    pub open spec fn empty() -> LedgerView {
        LedgerView { counts: Map::empty(), orders: Map::empty() }
    }

    /// The next position of `address`: its counter, or 0 where none is kept.
    pub open spec fn count(self, address: Seq<u8>) -> u128 {
        if self.counts.contains_key(address) {
            self.counts[address]
        } else {
            0
        }
    }

    /// Whether `address` holds an order at `position`.
    pub open spec fn has_order(self, address: Seq<u8>, position: u128) -> bool {
        self.orders.contains_key((address, position))
    }

    /// The order that `address` holds at `position`.
    pub open spec fn order(self, address: Seq<u8>, position: u128) -> OrderView
        recommends
            self.has_order(address, position),
    {
        self.orders[(address, position)]
    }

    /// The ledger with the counter of `address` set to `count`.
    pub open spec fn set_count(self, address: Seq<u8>, count: u128) -> LedgerView {
        LedgerView { counts: self.counts.insert(address, count), ..self }
    }

    /// The ledger with `order` filed under `address` at `position`.
    pub open spec fn put_at(self, address: Seq<u8>, position: u128, order: OrderView) -> LedgerView {
        LedgerView { orders: self.orders.insert((address, position), order), ..self }
    }

    /// The ledger with `order` filed under `address`, at the position that
    /// the order names.
    pub open spec fn put(self, address: Seq<u8>, order: OrderView) -> LedgerView {
        self.put_at(address, order.position, order)
    }

    /// The ledger with `order` filed under `address` and the counter of
    /// `address` moved to the position after it.
    pub open spec fn append(self, address: Seq<u8>, order: OrderView) -> LedgerView
        recommends
            order.position < u128::MAX,
    {
        self.put(address, order).set_count(address, (order.position + 1) as u128)
    }

    /// The ledger with `order` filed under `user` and its twin filed under
    /// `contract`.
    pub open spec fn put_pair(self, user: Seq<u8>, order: OrderView, contract: Seq<u8>) -> LedgerView {
        self.put(user, order).put(contract, order.mirrored())
    }

    /// The holder of the twin of an order that `holder` holds: the contract
    /// for a creator's copy, the creator for the contract's copy.
    pub open spec fn twin_holder(contract: Seq<u8>, holder: Seq<u8>, order: OrderView) -> Seq<u8> {
        if holder == contract {
            order.creator
        } else {
            contract
        }
    }

    /// The ledger with both copies of an order written: `order` under
    /// `holder` at `position`, and its twin under the holder of the twin, at
    /// the position that `order` names as its twin's.
    pub open spec fn put_both(
        self,
        holder: Seq<u8>,
        position: u128,
        order: OrderView,
        contract: Seq<u8>,
    ) -> LedgerView {
        self.put_at(holder, position, order).put(
            Self::twin_holder(contract, holder, order),
            order.mirrored(),
        )
    }
}

impl View for Ledger {
    type V = LedgerView;

    closed spec fn view(&self) -> LedgerView {
        LedgerView {
            counts: self.counts@,
            orders: Map::new(
                |filed: (Seq<u8>, u128)| self.orders@.contains_key(spec_order_key(filed.0, filed.1)),
                |filed: (Seq<u8>, u128)| self.orders@[spec_order_key(filed.0, filed.1)],
            ),
        }
    }
}

impl Ledger {
    /// A ledger in which nothing has happened yet.
    pub fn new() -> (ledger: Ledger)
        ensures
            ledger@ == LedgerView::empty(),
    {
        let ledger = Ledger { counts: ByteMap::new(), orders: ByteMap::new() };
        assert(ledger@.orders =~= Map::empty());
        ledger
    }

    /// The identities that have a counter.
    pub fn counted(&self) -> (addresses: Vec<Vec<u8>>)
        ensures
            forall|address: Seq<u8>|
                self@.counts.contains_key(address) <==> exists|i: int|
                    0 <= i < addresses.len() && (#[trigger] addresses[i])@ == address,
    {
        self.counts.keys()
    }

    /// The places at which an order is filed: each holder with each of the
    /// positions that it holds an order at.
    pub fn filed(&self) -> (places: Vec<(Vec<u8>, u128)>)
        ensures
            forall|address: Seq<u8>, position: u128|
                self@.has_order(address, position) <==> exists|i: int|
                    0 <= i < places.len() && (#[trigger] places[i]).0@ == address && places[i].1
                        == position,
    {
        let keys = self.orders.keys();
        let mut places: Vec<(Vec<u8>, u128)> = Vec::new();
        let mut at: usize = 0;
        while at < keys.len()
            invariant
                at <= keys.len(),
                forall|i: int|
                    0 <= i < places.len() ==> exists|j: int|
                        0 <= j < at && (#[trigger] keys[j])@ == spec_order_key(
                            (#[trigger] places[i]).0@,
                            places[i].1,
                        ),
                forall|j: int, address: Seq<u8>, position: u128|
                    0 <= j < at && (#[trigger] keys[j])@ == #[trigger] spec_order_key(
                        address,
                        position,
                    ) ==> exists|i: int|
                        0 <= i < places.len() && (#[trigger] places[i]).0@ == address
                            && places[i].1 == position,
            decreases keys.len() - at,
        {
            let ghost before = places@;
            match split_order_key(&keys[at]) {
                Some((address, position)) => {
                    let ghost place = (address, position);
                    places.push((address, position));
                    assert(places[places.len() - 1] == place);
                    assert forall|i: int| 0 <= i < places.len() implies exists|j: int|
                        0 <= j < at + 1 && (#[trigger] keys[j])@ == spec_order_key(
                            (#[trigger] places[i]).0@,
                            places[i].1,
                        ) by {
                        if i < before.len() {
                            assert(places[i] == before[i]);
                            let j = choose|j: int|
                                0 <= j < at && (#[trigger] keys[j])@ == spec_order_key(
                                    before[i].0@,
                                    before[i].1,
                                );
                            assert(0 <= j < at + 1 && keys[j]@ == spec_order_key(
                                places[i].0@,
                                places[i].1,
                            ));
                        } else {
                            assert(keys[at as int]@ == spec_order_key(places[i].0@, places[i].1));
                        }
                    }
                    assert forall|j: int, a: Seq<u8>, p: u128|
                        0 <= j < at + 1 && (#[trigger] keys[j])@ == #[trigger] spec_order_key(
                            a,
                            p,
                        ) implies exists|i: int|
                        0 <= i < places.len() && (#[trigger] places[i]).0@ == a && places[i].1
                            == p by {
                        if j < at {
                            let i = choose|i: int|
                                0 <= i < before.len() && (#[trigger] before[i]).0@ == a
                                    && before[i].1 == p;
                            assert(places[i] == before[i]);
                        } else {
                            lemma_order_key_injective(a, p, place.0@, place.1);
                            let last = places.len() - 1;
                            assert(places[last].0@ == a && places[last].1 == p);
                        }
                    }
                },
                None => {},
            }
            at = at + 1;
        }
        assert forall|address: Seq<u8>, position: u128|
            self@.has_order(address, position) <==> exists|i: int|
                0 <= i < places.len() && (#[trigger] places[i]).0@ == address && places[i].1
                    == position by {
            let key = spec_order_key(address, position);
            if self@.has_order(address, position) {
                let j = choose|j: int| 0 <= j < keys.len() && (#[trigger] keys[j])@ == key;
                assert(keys[j]@ == spec_order_key(address, position));
            }
            if exists|i: int|
                0 <= i < places.len() && (#[trigger] places[i]).0@ == address && places[i].1
                    == position {
                let i = choose|i: int|
                    0 <= i < places.len() && (#[trigger] places[i]).0@ == address && places[i].1
                        == position;
                let j = choose|j: int|
                    0 <= j < keys.len() && (#[trigger] keys[j])@ == spec_order_key(
                        places[i].0@,
                        places[i].1,
                    );
                assert(keys[j]@ == key);
            }
        }
        places
    }
}

/// The next position of `for_address`: how many positions it has been given.
pub fn storage_count(store: &Ledger, for_address: &Vec<u8>) -> (count: u128)
    ensures
        count == store@.count(for_address@),
{
    match store.counts.get(for_address) {
        Some(count) => *count,
        None => 0,
    }
}

/// Sets the counter of `for_address`.
pub fn set_count(store: &mut Ledger, for_address: &Vec<u8>, count: u128)
    ensures
        final(store)@ == old(store)@.set_count(for_address@, count),
{
    store.counts.insert(copy_bytes(for_address), count);
    assert(store@.orders =~= old(store)@.orders);
}

/// The order that `address` holds at `position`. Where it holds none there,
/// the answer is `NotFound`.
pub fn order_at_position(store: &Ledger, address: &Vec<u8>, position: u128) -> (found: Result<
    Order,
    ContractError,
>)
    ensures
        match found {
            Ok(order) => store@.has_order(address@, position) && order@ == store@.order(
                address@,
                position,
            ),
            Err(error) => !store@.has_order(address@, position) && error == ContractError::NotFound,
        },
{
    let key = order_key(address, position);
    match store.orders.get(&key) {
        Some(order) => Ok(order.copy()),
        None => Err(ContractError::NotFound),
    }
}

/// Files `order` under `address` at `position`, in place of what was filed
/// there. No other order and no counter is touched.
pub fn put_order_at(store: &mut Ledger, address: &Vec<u8>, position: u128, order: Order)
    ensures
        final(store)@ == old(store)@.put_at(address@, position, order@),
{
    let key = order_key(address, position);
    let ghost filed = order@;
    store.orders.insert(key, order);
    assert forall|other: (Seq<u8>, u128)|
        spec_order_key(other.0, other.1) == spec_order_key(address@, position) <==> other == (
            address@,
            position,
        ) by {
        lemma_order_key_injective(other.0, other.1, address@, position);
    }
    assert(store@.orders =~= old(store)@.put_at(address@, position, filed).orders);
}

/// Files `order` under `address` at the position that the order names, in
/// place of what was filed there.
pub fn update_order(store: &mut Ledger, address: &Vec<u8>, order: Order)
    ensures
        final(store)@ == old(store)@.put(address@, order@),
{
    let position = order.position;
    put_order_at(store, address, position, order);
}

/// Files `order` under `for_address` and moves the counter of `for_address`
/// to the position after it. An order at the last position there is cannot be
/// appended: the answer is `TooManyOrders`, and nothing is written.
pub fn append_order(store: &mut Ledger, order: &Order, for_address: &Vec<u8>) -> (done: Result<
    (),
    ContractError,
>)
    ensures
        match done {
            Ok(()) => order.position < u128::MAX && final(store)@ == old(store)@.append(
                for_address@,
                order@,
            ),
            Err(error) => order.position == u128::MAX && error == ContractError::TooManyOrders
                && final(store)@ == old(store)@,
        },
{
    if order.position == u128::MAX {
        return Err(ContractError::TooManyOrders);
    }
    update_order(store, for_address, order.copy());
    set_count(store, for_address, order.position + 1);
    Ok(())
}

/// Files `creator_order` under `user_address` and its twin under
/// `contract_address`: each at the position that the other names as its
/// twin's.
pub fn update_creator_order_and_associated_contract_order(
    store: &mut Ledger,
    user_address: &Vec<u8>,
    creator_order: Order,
    contract_address: &Vec<u8>,
)
    ensures
        final(store)@ == old(store)@.put_pair(user_address@, creator_order@, contract_address@),
{
    update_order(store, user_address, creator_order.copy());
    update_order(store, contract_address, creator_order.mirrored());
}

/// Writes both copies of the order that `holder_address` holds at
/// `position`: `order` in its place, and the twin of `order` under the other
/// holder, at the position that `order` names as its twin's. The other holder
/// is the contract where a creator holds the order, and the creator where the
/// contract holds it.
pub fn update_both_copies(
    store: &mut Ledger,
    holder_address: &Vec<u8>,
    position: u128,
    order: Order,
    contract_address: &Vec<u8>,
)
    ensures
        final(store)@ == old(store)@.put_both(
            holder_address@,
            position,
            order@,
            contract_address@,
        ),
{
    let twin_holder = if bytes_eq(holder_address, contract_address) {
        copy_bytes(&order.creator)
    } else {
        copy_bytes(contract_address)
    };
    put_order_at(store, holder_address, position, order.copy());
    update_order(store, &twin_holder, order.mirrored());
}

} // verus!
