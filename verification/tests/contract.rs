use order_ledger::contract::{
    cancel_order, create_order, init, orders_by_positions, set_execution_fee_for_order,
    update_config, Env, InitMsg, OrderResponse,
};
use order_ledger::errors::{ContractError, ErrorKind};
use order_ledger::ledger::{
    order_at_position, update_creator_order_and_associated_contract_order, Ledger,
};
use order_ledger::messages::{instruction_messages, Message, BLOCK_SIZE};
use order_ledger::state::{Config, Order, RegisteredToken, SecretContract};
use order_ledger::tokens::rescue_transfers;
use secret_cosmwasm_std::testing::{mock_env, MockApi};
use secret_cosmwasm_std::{Api, CanonicalAddr, HumanAddr, Uint128};
use secret_toolkit::snip20;

const MOCK_ADMIN: &str = "admin";
const MOCK_AMOUNT: u128 = 12_345;
const MOCK_BUTT_ADDRESS: &str = "mock-butt-address";
const MOCK_MOUNT_DOOM_ADDRESS: &str = "mock-mount-doom-contract-hash-address";
const MOCK_SSCRT_ADDRESS: &str = "mock-sscrt-address";
const MOCK_TOKEN_ADDRESS: &str = "mock-token-address";

// === HELPERS ===
fn env_of(sender: &str) -> Env {
    let env = mock_env(sender, &[]);
    Env {
        sender: env.message.sender.0,
        contract_address: env.contract.address.0,
        contract_code_hash: env.contract_code_hash,
        block_time: env.block.time,
        block_height: env.block.height,
    }
}

fn canonical(address: &str) -> Vec<u8> {
    MockApi::new(20)
        .canonical_address(&HumanAddr::from(address))
        .unwrap()
        .as_slice()
        .to_vec()
}

fn human(address: &Vec<u8>) -> String {
    MockApi::new(20)
        .human_address(&CanonicalAddr::from(address.clone()))
        .unwrap()
        .0
}

fn contract_address() -> Vec<u8> {
    canonical(&env_of(MOCK_ADMIN).contract_address)
}

fn user_address() -> Vec<u8> {
    canonical(mock_user_address())
}

fn create_order_helper(store: &mut Ledger, config: &Config) {
    create_order(
        store,
        &env_of(MOCK_BUTT_ADDRESS),
        config,
        &contract_address(),
        &user_address(),
        MOCK_AMOUNT,
        mock_token().address,
    )
    .unwrap();
}

fn init_helper() -> (Config, Ledger) {
    let env = env_of(MOCK_ADMIN);
    let msg = InitMsg {
        butt: mock_butt(),
        execution_fee: mock_execution_fee(),
        mount_doom: mock_mount_doom(),
        sscrt: mock_sscrt(),
    };
    (init(&env, msg), Ledger::new())
}

fn mock_butt() -> SecretContract {
    SecretContract {
        address: MOCK_BUTT_ADDRESS.to_string(),
        contract_hash: "mock-butt-contract-hash".to_string(),
    }
}

fn mock_execution_fee() -> u128 {
    5_555
}

fn mock_mount_doom() -> SecretContract {
    SecretContract {
        address: MOCK_MOUNT_DOOM_ADDRESS.to_string(),
        contract_hash: "mock-mount-doom-contract-hash".to_string(),
    }
}

fn mock_sscrt() -> SecretContract {
    SecretContract {
        address: MOCK_SSCRT_ADDRESS.to_string(),
        contract_hash: "mock-sscrt-contract-hash".to_string(),
    }
}

fn mock_token() -> SecretContract {
    SecretContract {
        address: MOCK_TOKEN_ADDRESS.to_string(),
        contract_hash: "mock-token-contract-hash".to_string(),
    }
}

fn mock_user_address() -> &'static str {
    "gary"
}

fn transfer_message(recipient: &str, amount: u128, token: SecretContract) -> Message {
    Message {
        inner: snip20::transfer_msg(
            HumanAddr::from(recipient),
            Uint128(amount),
            None,
            None,
            BLOCK_SIZE,
            token.contract_hash,
            HumanAddr(token.address),
        )
        .unwrap(),
    }
}

// === UNIT TESTS ===
#[test]
fn test_set_execution_fee_for_order() {
    let (config, mut store) = init_helper();
    let mut env = env_of(MOCK_BUTT_ADDRESS);

    // when token sent in is not sscrt
    let handle_result = set_execution_fee_for_order(
        &mut store,
        &env,
        &config,
        &contract_address(),
        &user_address(),
        1,
    );
    // * it raises an error
    let error = handle_result.unwrap_err();
    assert_eq!(error, ContractError::WrongFeeToken);
    assert_eq!(error.text(), "Execution fee token must be SSCRT.");

    // when token sent in is sscrt
    env = env_of(MOCK_SSCRT_ADDRESS);
    // = when amount sent in is not equal to execution fee
    let handle_result = set_execution_fee_for_order(
        &mut store,
        &env,
        &config,
        &contract_address(),
        &user_address(),
        1,
    );
    // * it raises an error
    let error = handle_result.unwrap_err();
    assert_eq!(error, ContractError::WrongFeeAmount);
    assert_eq!(error.text(), "Amount sent in must equal execution fee.");
    // = when amount sent in is equal to execution fee
    let handle_result = set_execution_fee_for_order(
        &mut store,
        &env,
        &config,
        &contract_address(),
        &user_address(),
        mock_execution_fee(),
    );
    // == when user does not have any orders
    // === * it raises an error
    let error = handle_result.unwrap_err();
    assert_eq!(error, ContractError::OrderDoesNotExist);
    assert_eq!(error.text(), "Order does not exist.");
    // == when user has at least one order
    create_order_helper(&mut store, &config);
    // === when current block is the same as the block when the order is created
    // ==== when order has fee set already
    let mut creator_order = order_at_position(&store, &user_address(), 0).unwrap();
    creator_order.execution_fee = Some(1);
    update_creator_order_and_associated_contract_order(
        &mut store,
        &user_address(),
        creator_order.clone(),
        &contract_address(),
    );
    // ==== * it raises an error
    let handle_result = set_execution_fee_for_order(
        &mut store,
        &env,
        &config,
        &contract_address(),
        &user_address(),
        mock_execution_fee(),
    );
    let error = handle_result.unwrap_err();
    assert_eq!(error, ContractError::FeeAlreadySet);
    assert_eq!(error.text(), "Execution fee already set for order.");
    // ==== when order does not have execution fee set already
    // ===== when order is cancelled
    creator_order.execution_fee = None;
    creator_order.status = 2;
    update_creator_order_and_associated_contract_order(
        &mut store,
        &user_address(),
        creator_order.clone(),
        &contract_address(),
    );
    // ===== * it raises an error
    let handle_result = set_execution_fee_for_order(
        &mut store,
        &env,
        &config,
        &contract_address(),
        &user_address(),
        mock_execution_fee(),
    );
    let error = handle_result.unwrap_err();
    assert_eq!(error, ContractError::OrderNotOpen);
    assert_eq!(error.text(), "Order is not open.");
    // ===== when order is filled
    creator_order.status = 1;
    update_creator_order_and_associated_contract_order(
        &mut store,
        &user_address(),
        creator_order.clone(),
        &contract_address(),
    );
    // ===== * it raises an error
    let handle_result = set_execution_fee_for_order(
        &mut store,
        &env,
        &config,
        &contract_address(),
        &user_address(),
        mock_execution_fee(),
    );
    let error = handle_result.unwrap_err();
    assert_eq!(error, ContractError::OrderNotOpen);
    assert_eq!(error.text(), "Order is not open.");
    // ===== when order is open
    creator_order.status = 0;
    update_creator_order_and_associated_contract_order(
        &mut store,
        &user_address(),
        creator_order.clone(),
        &contract_address(),
    );
    // ===== * it sets the execution fee for the user order
    let handle_unwrapped = set_execution_fee_for_order(
        &mut store,
        &env,
        &config,
        &contract_address(),
        &user_address(),
        mock_execution_fee(),
    )
    .unwrap();
    creator_order = order_at_position(&store, &user_address(), 0).unwrap();
    assert_eq!(creator_order.execution_fee, Some(mock_execution_fee()));
    // ===== * it sets the execution fee for the contract order
    let contract_order = order_at_position(
        &store,
        &contract_address(),
        creator_order.other_storage_position,
    )
    .unwrap();
    assert_eq!(contract_order.execution_fee, Some(mock_execution_fee()));
    // ===== * it sends the creator order back as data
    assert_eq!(
        handle_unwrapped,
        OrderResponse {
            messages: vec![],
            order: creator_order.clone(),
        }
    );

    // === when current block is different from the block when the order is created
    let mut creator_order = order_at_position(&store, &user_address(), 0).unwrap();
    creator_order.created_at_block_height = 1;
    update_creator_order_and_associated_contract_order(
        &mut store,
        &user_address(),
        creator_order.clone(),
        &contract_address(),
    );
    // === * it raises an error
    let handle_result = set_execution_fee_for_order(
        &mut store,
        &env,
        &config,
        &contract_address(),
        &user_address(),
        mock_execution_fee(),
    );
    let error = handle_result.unwrap_err();
    assert_eq!(error, ContractError::FeeOutsideCreationBlock);
    assert_eq!(
        error.text(),
        "Execution fee must be set at the same block as when order is created."
    );
}

#[test]
fn test_cancel_order() {
    let (config, mut store) = init_helper();

    // = when order at position does not exist
    let mut handle_result = cancel_order(
        &mut store,
        &config,
        &contract_address(),
        &user_address(),
        0,
        &human(&user_address()),
    );

    // = * it raises an error
    assert_eq!(handle_result.unwrap_err(), ContractError::NotFound);

    // = when order at position exists
    create_order_helper(&mut store, &config);
    // === when order is cancelled
    let mut creator_order = order_at_position(&store, &user_address(), 0).unwrap();
    creator_order.status = 2;
    update_creator_order_and_associated_contract_order(
        &mut store,
        &creator_order.creator.clone(),
        creator_order.clone(),
        &contract_address(),
    );
    // === * it raises an error
    handle_result = cancel_order(
        &mut store,
        &config,
        &contract_address(),
        &user_address(),
        0,
        &human(&user_address()),
    );
    let error = handle_result.unwrap_err();
    assert_eq!(error, ContractError::OrderClosed);
    assert_eq!(error.text(), "Order is already filled or cancelled.");
    // === when order is filled
    creator_order.status = 2;
    update_creator_order_and_associated_contract_order(
        &mut store,
        &creator_order.creator.clone(),
        creator_order.clone(),
        &contract_address(),
    );
    // === * it raises an error
    handle_result = cancel_order(
        &mut store,
        &config,
        &contract_address(),
        &user_address(),
        0,
        &human(&user_address()),
    );
    let error = handle_result.unwrap_err();
    assert_eq!(error, ContractError::OrderClosed);
    assert_eq!(error.text(), "Order is already filled or cancelled.");
    // === when order can be cancelled
    creator_order.status = 0;
    update_creator_order_and_associated_contract_order(
        &mut store,
        &creator_order.creator.clone(),
        creator_order.clone(),
        &contract_address(),
    );
    handle_result = cancel_order(
        &mut store,
        &config,
        &contract_address(),
        &user_address(),
        0,
        &human(&user_address()),
    );
    // === * it sends the unfilled from token amount back to the creator
    let handle_result_unwrapped = handle_result.unwrap();
    assert_eq!(
        handle_result_unwrapped.messages,
        vec![transfer_message(
            &human(&creator_order.creator),
            creator_order.amount,
            mock_butt()
        )]
    );
    // === * it sends the creator order back as data
    let creator_order = order_at_position(&store, &user_address(), 0).unwrap();
    assert_eq!(handle_result_unwrapped.order, creator_order);

    // === * it sets cancelled to true
    let mut creator_order = order_at_position(&store, &user_address(), 0).unwrap();
    let contract_order = order_at_position(
        &store,
        &contract_address(),
        creator_order.other_storage_position,
    )
    .unwrap();
    assert_eq!(creator_order.status, 2);
    assert_eq!(contract_order.status, 2);

    // ==== when order has an execution fee
    creator_order.execution_fee = Some(1);
    creator_order.status = 0;
    update_creator_order_and_associated_contract_order(
        &mut store,
        &creator_order.creator.clone(),
        creator_order.clone(),
        &contract_address(),
    );
    creator_order.execution_fee = Some(1);
    creator_order.status = 0;
    update_creator_order_and_associated_contract_order(
        &mut store,
        &creator_order.creator.clone(),
        creator_order.clone(),
        &contract_address(),
    );
    // ===== * it sends the execution fee back to the creator
    handle_result = cancel_order(
        &mut store,
        &config,
        &contract_address(),
        &user_address(),
        0,
        &human(&user_address()),
    );
    assert_eq!(
        handle_result.unwrap().messages,
        vec![
            transfer_message(
                &human(&creator_order.creator),
                creator_order.amount,
                mock_butt()
            ),
            transfer_message(
                &human(&creator_order.creator),
                creator_order.execution_fee.unwrap(),
                mock_sscrt()
            ),
        ]
    );
}

#[test]
fn test_config() {
    let (config, _store) = init_helper();

    assert_eq!(
        Config {
            admin: MOCK_ADMIN.to_string(),
            butt: mock_butt(),
            execution_fee: mock_execution_fee(),
            mount_doom: mock_mount_doom(),
            sscrt: mock_sscrt(),
        },
        config
    );
}

#[test]
fn test_create_order() {
    let (config, mut store) = init_helper();

    // = when token sent in isn't BUTT
    let handle_result = create_order(
        &mut store,
        &env_of(&env_of(MOCK_ADMIN).contract_address),
        &config,
        &contract_address(),
        &user_address(),
        MOCK_AMOUNT,
        mock_token().address,
    );
    // = * it raises an error
    let error = handle_result.unwrap_err();
    assert_eq!(error, ContractError::Unauthorized);
    assert_eq!(error.kind(), ErrorKind::Unauthorized);

    // = when token sent in is BUTT
    let handle_unwrapped = create_order(
        &mut store,
        &env_of(MOCK_BUTT_ADDRESS),
        &config,
        &contract_address(),
        &user_address(),
        MOCK_AMOUNT,
        mock_token().address,
    )
    .unwrap();
    // === * it sends the creator order back as data
    let order: Order = Order {
        position: 0,
        execution_fee: None,
        other_storage_position: 0,
        creator: user_address(),
        amount: MOCK_AMOUNT,
        to: mock_token().address,
        status: 0,
        created_at_block_time: mock_env(MOCK_ADMIN, &[]).block.time,
        created_at_block_height: mock_env(MOCK_ADMIN, &[]).block.height,
    };
    assert_eq!(
        handle_unwrapped,
        OrderResponse {
            messages: vec![],
            order: order.clone(),
        }
    );

    // === * it stores the order for the creator
    // === * it stores the order for the smart_contract
    assert_eq!(
        order_at_position(&store, &user_address(), 0).unwrap(),
        order
    );
    assert_eq!(
        order_at_position(&store, &contract_address(), 0).unwrap(),
        order
    )
}

#[test]
fn test_orders_by_positions() {
    let (config, mut store) = init_helper();

    // = when user does not have any orders yet
    // = * it raises an error
    let mut res = orders_by_positions(&store, &user_address(), &vec![0]);
    assert_eq!(res.unwrap_err(), ContractError::NotFound);

    // = when user has orders
    create_order_helper(&mut store, &config);
    create_order_helper(&mut store, &config);
    create_order_helper(&mut store, &config);
    create_order_helper(&mut store, &config);
    create_order_helper(&mut store, &config);
    // == when position requested is unavailable
    res = orders_by_positions(&store, &user_address(), &vec![1, 2, 3, 5]);
    assert_eq!(res.unwrap_err(), ContractError::NotFound);
    // == when position requested is available
    res = orders_by_positions(&store, &user_address(), &vec![1, 3, 4]);
    // == * it returns the orders at those positions
    let orders = res.unwrap();
    assert_eq!(orders.len(), 3);
    assert_eq!(orders[0].creator, user_address());
    assert_eq!(orders[0].position, 1);
    assert_eq!(orders[1].position, 3);
    assert_eq!(orders[2].position, 4);
}

#[test]
fn test_update_config() {
    let (mut config, _store) = init_helper();
    let env = env_of(mock_user_address());
    // = when called by a non-admin
    // = * it raises an Unauthorized error
    let handle_result = update_config(&mut config, &env, MOCK_AMOUNT);
    assert_eq!(handle_result.unwrap_err(), ContractError::Unauthorized);

    // = when called by the admin
    assert_eq!(config.execution_fee, mock_execution_fee());
    update_config(&mut config, &env_of(MOCK_ADMIN), MOCK_AMOUNT).unwrap();
    // = * it updates the execution_fee
    assert_eq!(config.execution_fee, MOCK_AMOUNT)
}

#[test]
fn test_rescue_tokens() {
    let (config, _store) = init_helper();
    let registered_butt = RegisteredToken {
        address: mock_butt().address,
        contract_hash: mock_butt().contract_hash,
        sum_balance: 0,
    };
    // = when called by a non-admin
    // = * it raises an Unauthorized error
    let handle_result = rescue_transfers(
        &env_of(mock_user_address()),
        &config,
        Some((registered_butt.clone(), MOCK_AMOUNT)),
    );
    assert_eq!(handle_result.unwrap_err(), ContractError::Unauthorized);

    // = when called by the admin
    // == when only denom is specified
    // === * it asks nothing of any token
    let handle_result = rescue_transfers(&env_of(MOCK_ADMIN), &config, None);
    assert_eq!(handle_result.unwrap(), vec![]);

    // == when only token address and key are specified
    // == * it sends the excess amount of token
    let handle_result = rescue_transfers(
        &env_of(MOCK_ADMIN),
        &config,
        Some((registered_butt, MOCK_AMOUNT)),
    );
    let handle_result_unwrapped = handle_result.unwrap();
    assert_eq!(
        instruction_messages(&handle_result_unwrapped, BLOCK_SIZE).unwrap(),
        vec![transfer_message(MOCK_ADMIN, MOCK_AMOUNT, mock_butt())]
    );
}
