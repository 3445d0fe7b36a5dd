use order_ledger::errors::{ContractError, ErrorKind};
use order_ledger::keys::{order_key, split_order_key};
use order_ledger::ledger::{
    append_order, order_at_position, set_count, storage_count, update_order,
    update_creator_order_and_associated_contract_order, Ledger,
};
use order_ledger::state::{HumanizedOrder, Order};

fn order_at(position: u128, other: u128) -> Order {
    Order {
        position,
        execution_fee: None,
        other_storage_position: other,
        creator: vec![7, 7, 7],
        amount: 10,
        to: "recipient".to_string(),
        status: 0,
        created_at_block_time: 100,
        created_at_block_height: 5,
    }
}

#[test]
fn counter_of_an_unknown_identity_is_zero() {
    let store = Ledger::new();
    assert_eq!(storage_count(&store, &vec![1, 2, 3]), 0);
    assert_eq!(storage_count(&store, &vec![]), 0);
}

#[test]
fn counters_are_kept_per_identity() {
    let mut store = Ledger::new();
    set_count(&mut store, &vec![1], 4);
    set_count(&mut store, &vec![2], 9);
    set_count(&mut store, &vec![1], 5);
    assert_eq!(storage_count(&store, &vec![1]), 5);
    assert_eq!(storage_count(&store, &vec![2]), 9);
    assert_eq!(storage_count(&store, &vec![1, 2]), 0);
}

#[test]
fn order_at_an_empty_position_is_not_found() {
    let mut store = Ledger::new();
    let error = order_at_position(&store, &vec![1], 0).unwrap_err();
    assert_eq!(error, ContractError::NotFound);
    assert_eq!(error.kind(), ErrorKind::NotFound);
    update_order(&mut store, &vec![1], order_at(0, 0));
    assert_eq!(
        order_at_position(&store, &vec![1], 1).unwrap_err(),
        ContractError::NotFound
    );
    assert_eq!(
        order_at_position(&store, &vec![2], 0).unwrap_err(),
        ContractError::NotFound
    );
}

#[test]
fn update_order_files_at_the_position_of_the_order() {
    let mut store = Ledger::new();
    update_order(&mut store, &vec![1], order_at(3, 8));
    assert_eq!(
        order_at_position(&store, &vec![1], 3).unwrap(),
        order_at(3, 8)
    );
    // the counter is not touched
    assert_eq!(storage_count(&store, &vec![1]), 0);
    // a second write replaces the first
    let mut changed = order_at(3, 8);
    changed.status = 1;
    update_order(&mut store, &vec![1], changed.clone());
    assert_eq!(order_at_position(&store, &vec![1], 3).unwrap(), changed);
}

#[test]
fn identities_do_not_see_each_other() {
    let mut store = Ledger::new();
    // the bytes of one identity followed by a position must not be taken
    // for another identity
    let short: Vec<u8> = vec![1];
    let mut long: Vec<u8> = vec![1];
    long.extend_from_slice(&0u128.to_le_bytes());
    update_order(&mut store, &short, order_at(0, 0));
    assert!(order_at_position(&store, &long, 0).is_err());
    update_order(&mut store, &long, order_at(0, 5));
    assert_eq!(
        order_at_position(&store, &short, 0).unwrap(),
        order_at(0, 0)
    );
    assert_eq!(order_at_position(&store, &long, 0).unwrap(), order_at(0, 5));
}

#[test]
fn append_order_moves_the_counter_past_the_order() {
    let mut store = Ledger::new();
    append_order(&mut store, &order_at(0, 0), &vec![1]).unwrap();
    assert_eq!(storage_count(&store, &vec![1]), 1);
    append_order(&mut store, &order_at(1, 0), &vec![1]).unwrap();
    assert_eq!(storage_count(&store, &vec![1]), 2);
    assert_eq!(
        order_at_position(&store, &vec![1], 1).unwrap(),
        order_at(1, 0)
    );
    assert_eq!(storage_count(&store, &vec![2]), 0);
}

#[test]
fn append_order_at_the_last_position_is_refused() {
    let mut store = Ledger::new();
    set_count(&mut store, &vec![1], u128::MAX);
    let error = append_order(&mut store, &order_at(u128::MAX, 0), &vec![1]).unwrap_err();
    assert_eq!(error, ContractError::TooManyOrders);
    assert_eq!(error.kind(), ErrorKind::Overflow);
    assert_eq!(
        error.text(),
        "Reached implementation limit for the number of orders per address."
    );
    // nothing was written
    assert_eq!(storage_count(&store, &vec![1]), u128::MAX);
    assert!(order_at_position(&store, &vec![1], u128::MAX).is_err());
    // the position before the last can still be taken
    append_order(&mut store, &order_at(u128::MAX - 1, 0), &vec![1]).unwrap();
    assert_eq!(storage_count(&store, &vec![1]), u128::MAX);
}

#[test]
fn pair_is_filed_under_both_holders() {
    let mut store = Ledger::new();
    let user = vec![1u8];
    let contract = vec![2u8];
    update_creator_order_and_associated_contract_order(
        &mut store,
        &user,
        order_at(3, 8),
        &contract,
    );
    assert_eq!(
        order_at_position(&store, &user, 3).unwrap(),
        order_at(3, 8)
    );
    assert_eq!(
        order_at_position(&store, &contract, 8).unwrap(),
        order_at(8, 3)
    );
    assert!(order_at_position(&store, &user, 8).is_err());
    assert!(order_at_position(&store, &contract, 3).is_err());
}

#[test]
fn mirrored_exchanges_the_two_positions() {
    let twin = order_at(3, 8).mirrored();
    assert_eq!(twin, order_at(8, 3));
    assert_eq!(twin.mirrored(), order_at(3, 8));
    assert_eq!(order_at(3, 8).copy(), order_at(3, 8));
}

#[test]
fn into_humanized_takes_the_resolved_creator() {
    let mut order = order_at(3, 8);
    order.execution_fee = Some(50);
    order.status = 2;
    assert_eq!(
        order.into_humanized("gary".to_string()),
        HumanizedOrder {
            position: 3,
            execution_fee: Some(50),
            creator: "gary".to_string(),
            amount: 10,
            to: "recipient".to_string(),
            status: 2,
            created_at_block_time: 100,
            created_at_block_height: 5,
        }
    );
}

#[test]
fn ledger_lists_what_it_holds() {
    let mut store = Ledger::new();
    assert_eq!(store.counted(), Vec::<Vec<u8>>::new());
    assert_eq!(store.filed(), Vec::<(Vec<u8>, u128)>::new());
    append_order(&mut store, &order_at(0, 0), &vec![1]).unwrap();
    append_order(&mut store, &order_at(1, 0), &vec![1]).unwrap();
    update_order(&mut store, &vec![], order_at(300, 0));
    let mut filed = store.filed();
    filed.sort();
    assert_eq!(filed, vec![(vec![], 300), (vec![1], 0), (vec![1], 1)]);
    assert_eq!(store.counted(), vec![vec![1u8]]);
}

#[test]
fn order_key_is_identity_then_position_least_byte_first() {
    let key = order_key(&vec![0xAA, 0xBB], 0x0102);
    assert_eq!(
        key,
        vec![0xAA, 0xBB, 0x02, 0x01, 0, 0, 0, 0, 0, 0, 0, 0, 0, 0, 0, 0, 0, 0]
    );
    assert_eq!(order_key(&vec![], u128::MAX), vec![0xFF; 16]);
}

#[test]
fn split_order_key_reads_a_key_back() {
    assert_eq!(
        split_order_key(&order_key(&vec![9, 8, 7], 77)),
        Some((vec![9, 8, 7], 77))
    );
    assert_eq!(
        split_order_key(&order_key(&vec![], 0)),
        Some((vec![], 0))
    );
    assert_eq!(split_order_key(&vec![1; 15]), None);
    assert_eq!(split_order_key(&vec![]), None);
}
