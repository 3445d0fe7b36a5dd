//! The tokens that have been told to notify the ledger of what it receives.

use vstd::prelude::*;
use crate::byte_map::ByteMap;
use crate::bytes::copy_bytes;
use crate::contract::Env;
use crate::errors::ContractError;
use crate::messages::{
    instruction_messages, instruction_views, messages_carry, some_message_fails, Instruction,
    InstructionView, Message, Request, RequestView, BLOCK_SIZE,
};
use crate::state::{
    Config, RegisteredToken, RegisteredTokenView, SecretContract, SecretContractView,
};
use crate::validations::{authorize, is_allowed};

verus! {

/// The registered tokens, each under its identity.
pub struct TokenRegistry {
    tokens: ByteMap<RegisteredToken>,
}

impl View for TokenRegistry {
    type V = Map<Seq<u8>, RegisteredTokenView>;

    closed spec fn view(&self) -> Map<Seq<u8>, RegisteredTokenView> {
        self.tokens@
    }
}

impl TokenRegistry {
    /// A registry without tokens.
    pub fn new() -> (registry: TokenRegistry)
        ensures
            registry@ == Map::<Seq<u8>, RegisteredTokenView>::empty(),
    {
        TokenRegistry { tokens: ByteMap::new() }
    }

    /// The identities under which a token is registered.
    pub fn registered(&self) -> (addresses: Vec<Vec<u8>>)
        ensures
            forall|address: Seq<u8>|
                self@.contains_key(address) <==> exists|i: int|
                    0 <= i < addresses.len() && (#[trigger] addresses[i])@ == address,
    {
        self.tokens.keys()
    }
}

/// The token that is registered under `token_address`, if there is one.
pub fn read_registered_token(storage: &TokenRegistry, token_address: &Vec<u8>) -> (token: Option<
    RegisteredToken,
>)
    ensures
        match token {
            Some(token) => storage@.contains_key(token_address@) && storage@[token_address@]
                == token@,
            None => !storage@.contains_key(token_address@),
        },
{
    match storage.tokens.get(token_address) {
        Some(token) => Some(token.copy()),
        None => None,
    }
}

/// Registers `registered_token` under `token_address`, in place of what was
/// registered there.
pub fn write_registered_token(
    storage: &mut TokenRegistry,
    token_address: &Vec<u8>,
    registered_token: &RegisteredToken,
)
    ensures
        final(storage)@ == old(storage)@.insert(token_address@, registered_token@),
{
    storage.tokens.insert(copy_bytes(token_address), registered_token.copy());
}

/// A token that is put forward for registration, with the identity that its
/// address stands for.
#[derive(Clone, Debug, PartialEq)]
pub struct ListedToken {
    pub token: SecretContract,
    pub canonical_address: Vec<u8>,
}

/// What a [`ListedToken`] holds.
pub struct ListedTokenView {
    pub token: SecretContractView,
    pub canonical_address: Seq<u8>,
}

impl View for ListedToken {
    type V = ListedTokenView;

    open spec fn view(&self) -> ListedTokenView {
        ListedTokenView { token: self.token@, canonical_address: self.canonical_address@ }
    }
}

/// The entry of a token that has just been registered.
pub open spec fn newly_registered(token: SecretContractView) -> RegisteredTokenView {
    RegisteredTokenView {
        address: token.address,
        contract_hash: token.contract_hash,
        sum_balance: 0,
    }
}

/// What the registration of one more token adds to the registry and to the
/// instructions so far. A token that the registry does not know is entered
/// and asked to notify the contract; every token is given the viewing key.
pub open spec fn registration_step(
    so_far: (Map<Seq<u8>, RegisteredTokenView>, Seq<InstructionView>),
    code_hash: Seq<char>,
    viewing_key: Seq<char>,
    listed: ListedTokenView,
) -> (Map<Seq<u8>, RegisteredTokenView>, Seq<InstructionView>) {
    let set_key = InstructionView {
        token: listed.token,
        request: RequestView::SetViewingKey { key: viewing_key },
    };
    if so_far.0.contains_key(listed.canonical_address) {
        (so_far.0, so_far.1.push(set_key))
    } else {
        let register = InstructionView {
            token: listed.token,
            request: RequestView::RegisterReceive { code_hash },
        };
        (
            so_far.0.insert(listed.canonical_address, newly_registered(listed.token)),
            so_far.1.push(register).push(set_key),
        )
    }
}

/// The registry after `tokens` have been registered one after the other, and
/// the instructions that this gives rise to, in their order.
pub open spec fn registration(
    registry: Map<Seq<u8>, RegisteredTokenView>,
    code_hash: Seq<char>,
    viewing_key: Seq<char>,
    tokens: Seq<ListedToken>,
) -> (Map<Seq<u8>, RegisteredTokenView>, Seq<InstructionView>)
    decreases tokens.len(),
{
    if tokens.len() == 0 {
        (registry, Seq::empty())
    } else {
        registration_step(
            registration(registry, code_hash, viewing_key, tokens.drop_last()),
            code_hash,
            viewing_key,
            tokens.last()@,
        )
    }
}

/// Works out what a registration of `tokens` asks for: the entries of the
/// tokens that `storage` does not know yet, and the instructions to the
/// tokens, in their order. Nothing is entered yet.
pub fn plan_registration(
    storage: &TokenRegistry,
    code_hash: &String,
    viewing_key: &String,
    tokens: &Vec<ListedToken>,
) -> (plan: (TokenRegistry, Vec<Instruction>))
    ensures
        storage@.union_prefer_right(plan.0@) == registration(
            storage@,
            code_hash@,
            viewing_key@,
            tokens@,
        ).0,
        forall|address: Seq<u8>| #[trigger]
            plan.0@.contains_key(address) ==> !storage@.contains_key(address),
        instruction_views(plan.1@) == registration(storage@, code_hash@, viewing_key@, tokens@).1,
{
    let mut fresh = TokenRegistry::new();
    let mut instructions: Vec<Instruction> = Vec::new();
    let mut i: usize = 0;
    assert(tokens@.take(0) =~= Seq::<ListedToken>::empty());
    assert(storage@.union_prefer_right(fresh@) =~= storage@);
    assert(instruction_views(instructions@) =~= Seq::<InstructionView>::empty());
    while i < tokens.len()
        invariant
            i <= tokens.len(),
            forall|address: Seq<u8>| #[trigger]
                fresh@.contains_key(address) ==> !storage@.contains_key(address),
            registration(storage@, code_hash@, viewing_key@, tokens@.take(i as int)).0
                == storage@.union_prefer_right(fresh@),
            registration(storage@, code_hash@, viewing_key@, tokens@.take(i as int)).1
                == instruction_views(instructions@),
        decreases tokens.len() - i,
    {
        let listed = &tokens[i];
        let ghost so_far = registration(storage@, code_hash@, viewing_key@, tokens@.take(i as int));
        assert(tokens@.take(i + 1).drop_last() =~= tokens@.take(i as int));
        assert(tokens@.take(i + 1).last() == tokens[i as int]);
        let known = read_registered_token(storage, &listed.canonical_address).is_some()
            || read_registered_token(&fresh, &listed.canonical_address).is_some();
        assert(known == so_far.0.contains_key(listed.canonical_address@));
        if !known {
            let entry = RegisteredToken {
                address: listed.token.address.clone(),
                contract_hash: listed.token.contract_hash.clone(),
                sum_balance: 0,
            };
            write_registered_token(&mut fresh, &listed.canonical_address, &entry);
            instructions.push(
                Instruction {
                    token: listed.token.copy(),
                    request: Request::RegisterReceive { code_hash: code_hash.clone() },
                },
            );
            assert(storage@.union_prefer_right(fresh@) =~= so_far.0.insert(
                listed.canonical_address@,
                newly_registered(listed.token@),
            ));
        }
        instructions.push(
            Instruction {
                token: listed.token.copy(),
                request: Request::SetViewingKey { key: viewing_key.clone() },
            },
        );
        assert(instruction_views(instructions@) =~= registration_step(
            so_far,
            code_hash@,
            viewing_key@,
            listed@,
        ).1);
        i = i + 1;
    }
    assert(tokens@.take(tokens.len() as int) =~= tokens@);
    (fresh, instructions)
}

/// Enters the tokens of `fresh` into `storage`, each in place of what was
/// registered under its identity.
pub fn enter_tokens(storage: &mut TokenRegistry, fresh: &TokenRegistry)
    ensures
        final(storage)@ == old(storage)@.union_prefer_right(fresh@),
{
    let ghost before = storage@;
    let entered = fresh.registered();
    let mut j: usize = 0;
    while j < entered.len()
        invariant
            j <= entered.len(),
            forall|k: int| 0 <= k < entered.len() ==> fresh@.contains_key((#[trigger] entered[k])@),
            forall|address: Seq<u8>| #[trigger]
                storage@.contains_key(address) <==> before.contains_key(address) || exists|k: int|
                    0 <= k < j && (#[trigger] entered[k])@ == address,
            forall|address: Seq<u8>| #[trigger]
                before.contains_key(address) && storage@[address] != before[address]
                    ==> fresh@.contains_key(address),
            forall|k: int|
                0 <= k < j ==> storage@[(#[trigger] entered[k])@] == fresh@[entered[k]@],
        decreases entered.len() - j,
    {
        let ghost stored = storage@;
        match read_registered_token(fresh, &entered[j]) {
            Some(entry) => {
                write_registered_token(storage, &entered[j], &entry);
            },
            None => {},
        }
        assert forall|address: Seq<u8>| #[trigger]
            storage@.contains_key(address) <==> before.contains_key(address) || exists|k: int|
                0 <= k < j + 1 && (#[trigger] entered[k])@ == address by {
            if stored.contains_key(address) && !before.contains_key(address) {
                let k = choose|k: int| 0 <= k < j && (#[trigger] entered[k])@ == address;
                assert(0 <= k < j + 1 && entered[k]@ == address);
            }
            if address == entered[j as int]@ {
                assert(0 <= j < j + 1 && entered[j as int]@ == address);
            }
        }
        j = j + 1;
    }
    assert(storage@ =~= before.union_prefer_right(fresh@)) by {
        assert forall|address: Seq<u8>|
            storage@.contains_key(address) <==> before.union_prefer_right(fresh@).contains_key(
                address,
            ) by {
            if fresh@.contains_key(address) {
                let k = choose|k: int|
                    0 <= k < entered.len() && (#[trigger] entered[k])@ == address;
                assert(0 <= k < j && entered[k]@ == address);
            }
        }
        assert forall|address: Seq<u8>| storage@.contains_key(address) implies storage@[address]
            == before.union_prefer_right(fresh@)[address] by {
            if fresh@.contains_key(address) {
                let k = choose|k: int|
                    0 <= k < entered.len() && (#[trigger] entered[k])@ == address;
                assert(storage@[entered[k]@] == fresh@[entered[k]@]);
            }
        }
    }
}

/// Registers `tokens` and builds the messages that tell each of them so.
///
/// Only the administrator may register tokens. A token that is not in the
/// registry yet is entered, and a message asks it to notify the contract of
/// what it receives; for every token, a message sets the viewing key. Where
/// the token toolkit builds no message for one of these, the registry stays
/// as it was.
pub fn register_tokens(
    storage: &mut TokenRegistry,
    env: &Env,
    config: &Config,
    tokens: &Vec<ListedToken>,
    viewing_key: &String,
) -> (registered: Result<Vec<Message>, ContractError>)
    ensures
        match registered {
            Ok(messages) => {
                &&& env.sender@ == config.admin@
                &&& final(storage)@ == registration(
                    old(storage)@,
                    env.contract_code_hash@,
                    viewing_key@,
                    tokens@,
                ).0
                &&& messages_carry(
                    messages@,
                    registration(
                        old(storage)@,
                        env.contract_code_hash@,
                        viewing_key@,
                        tokens@,
                    ).1,
                    BLOCK_SIZE,
                )
            },
            Err(error) => {
                &&& final(storage)@ == old(storage)@
                &&& if env.sender@ != config.admin@ {
                    error == ContractError::Unauthorized
                } else {
                    error is Message && some_message_fails(
                        registration(
                            old(storage)@,
                            env.contract_code_hash@,
                            viewing_key@,
                            tokens@,
                        ).1,
                        BLOCK_SIZE,
                    )
                }
            },
        },
{
    let allowed = vec![config.admin.clone()];
    assert(is_allowed(allowed@, env.sender@) <==> env.sender@ == config.admin@) by {
        assert(allowed@[0]@ == config.admin@);
    }
    authorize(allowed, &env.sender)?;
    let (fresh, instructions) = plan_registration(
        storage,
        &env.contract_code_hash,
        viewing_key,
        tokens,
    );
    let messages = instruction_messages(&instructions, BLOCK_SIZE)?;
    enter_tokens(storage, &fresh);
    Ok(messages)
}

/// What a rescue asks of a token: to move the whole `balance` that the
/// contract holds of it to the administrator.
pub open spec fn rescue_of(
    config: Config,
    token: Option<(RegisteredToken, u128)>,
) -> Seq<InstructionView> {
    match token {
        Some((token, balance)) => seq![
            InstructionView {
                token: SecretContractView {
                    address: token.address@,
                    contract_hash: token.contract_hash@,
                },
                request: RequestView::Transfer { recipient: config.admin@, amount: balance },
            },
        ],
        None => Seq::empty(),
    }
}

/// Plans the rescue of a token that has strayed into the contract's account.
/// `token` is the registered token to rescue, with the balance that the
/// contract holds of it, as the caller has read it from the chain.
///
/// Only the administrator may rescue: for every other sender the answer is
/// `Unauthorized`. For the administrator the plan is one transfer of the
/// whole balance to the administrator where a token is given, and nothing
/// where none is.
pub fn rescue_transfers(env: &Env, config: &Config, token: Option<(RegisteredToken, u128)>) -> (planned:
    Result<Vec<Instruction>, ContractError>)
    ensures
        match planned {
            Ok(transfers) => env.sender@ == config.admin@ && instruction_views(transfers@)
                == rescue_of(*config, token),
            Err(error) => env.sender@ != config.admin@ && error == ContractError::Unauthorized,
        },
{
    let allowed = vec![config.admin.clone()];
    assert(is_allowed(allowed@, env.sender@) <==> env.sender@ == config.admin@) by {
        assert(allowed@[0]@ == config.admin@);
    }
    authorize(allowed, &env.sender)?;
    let mut transfers: Vec<Instruction> = Vec::new();
    if let Some((token, balance)) = token {
        transfers.push(
            Instruction {
                token: SecretContract { address: token.address, contract_hash: token.contract_hash },
                request: Request::Transfer { recipient: config.admin.clone(), amount: balance },
            },
        );
    }
    assert(instruction_views(transfers@) =~= rescue_of(*config, token));
    Ok(transfers)
}

} // verus!
