//! Checks on who calls and on what was paid.

use vstd::prelude::*;
use crate::errors::ContractError;

verus! {

/// Whether `received` is one of `allowed`.
pub open spec fn is_allowed(allowed: Seq<String>, received: Seq<char>) -> bool {
    exists|i: int| 0 <= i < allowed.len() && (#[trigger] allowed[i])@ == received
}

/// Admits `received` where it is one of `allowed`, and answers
/// `Unauthorized` where it is not.
pub fn authorize(allowed: Vec<String>, received: &String) -> (admitted: Result<(), ContractError>)
    ensures
        admitted == (if is_allowed(allowed@, received@) {
            Ok::<(), ContractError>(())
        } else {
            Err::<(), ContractError>(ContractError::Unauthorized)
        }),
{
    let mut i: usize = 0;
    while i < allowed.len()
        invariant
            i <= allowed.len(),
            forall|j: int| 0 <= j < i ==> (#[trigger] allowed[j])@ != received@,
        decreases allowed.len() - i,
    {
        if allowed[i] == *received {
            return Ok(());
        }
        i = i + 1;
    }
    Err(ContractError::Unauthorized)
}

/// Passes where `received` is the address that was `expected`, and answers
/// `error` where it is another.
pub fn validate_human_addr(expected: &String, received: &String, error: ContractError) -> (checked:
    Result<(), ContractError>)
    ensures
        checked == (if expected@ == received@ {
            Ok::<(), ContractError>(())
        } else {
            Err::<(), ContractError>(error)
        }),
{
    if *expected == *received {
        Ok(())
    } else {
        Err(error)
    }
}

/// Passes where `received` is the amount that was `expected`, and answers
/// `error` where it is another.
pub fn validate_uint128(expected: u128, received: u128, error: ContractError) -> (checked: Result<
    (),
    ContractError,
>)
    ensures
        checked == (if expected == received {
            Ok::<(), ContractError>(())
        } else {
            Err::<(), ContractError>(error)
        }),
{
    if expected == received {
        Ok(())
    } else {
        Err(error)
    }
}

} // verus!
