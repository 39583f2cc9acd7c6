use crate::error::ContractError;
use crate::state::Coin;
use vstd::prelude::*;

verus! {

/// Why a payment was not accepted, as `cw_utils` tells it.
#[derive(Clone, Copy, Debug, PartialEq, Eq, Structural)]
pub enum PaymentFault {
    MissingDenom,
    ExtraDenom,
    MultipleDenoms,
    NoFunds,
    NonPayable,
}

/// What `cw_utils::must_pay` makes of a payment: the amount of the single
/// coin sent, where it is not zero and of the denomination asked for.
pub open spec fn must_pay_result(funds: Seq<Coin>, denom: Seq<char>) -> Result<u128, PaymentFault> {
    if funds.len() == 0 {
        Err(PaymentFault::NoFunds)
    } else if funds.len() > 1 {
        Err(PaymentFault::MultipleDenoms)
    } else if funds[0].amount == 0 {
        Err(PaymentFault::NoFunds)
    } else if funds[0].denom@ != denom {
        Err(PaymentFault::MissingDenom)
    } else {
        Ok(funds[0].amount)
    }
}

/// `cw_utils::must_pay` on the funds of a message: exactly one coin must
/// have been sent, with an amount that is not zero (else `NoFunds`, or
/// `MultipleDenoms` for several coins) and in the denomination asked for
/// (else `MissingDenom`).
#[verifier::external_body]
fn outside_must_pay(funds: &Vec<Coin>, denom: &String) -> (r: Result<u128, PaymentFault>)
    ensures
        r == must_pay_result(funds@, denom@),
{
    let info = cosmwasm_std::MessageInfo {
        sender: cosmwasm_std::Addr::unchecked(""),
        funds: funds.iter().map(|c| cosmwasm_std::Coin::new(c.amount, c.denom.as_str())).collect(),
    };
    match cw_utils::must_pay(&info, denom.as_str()) {
        Ok(amount) => Ok(amount.u128()),
        Err(cw_utils::PaymentError::MissingDenom(_)) => Err(PaymentFault::MissingDenom),
        Err(cw_utils::PaymentError::ExtraDenom(_)) => Err(PaymentFault::ExtraDenom),
        Err(cw_utils::PaymentError::MultipleDenoms {}) => Err(PaymentFault::MultipleDenoms),
        Err(cw_utils::PaymentError::NoFunds {}) => Err(PaymentFault::NoFunds),
        Err(cw_utils::PaymentError::NonPayable {}) => Err(PaymentFault::NonPayable),
    }
}

/// The amount that a payment deposits: that of the single coin sent.
/// Nothing sent, or a coin of zero, is `NoFundsSent`; several coins, or a
/// coin of another denomination, are `InvalidFunds`.
pub open spec fn payment(funds: Seq<Coin>, denom: Seq<char>) -> Result<nat, ContractError> {
    if funds.len() == 0 {
        Err(ContractError::NoFundsSent)
    } else if funds.len() > 1 {
        Err(ContractError::InvalidFunds)
    } else if funds[0].amount == 0 {
        Err(ContractError::NoFundsSent)
    } else if funds[0].denom@ != denom {
        Err(ContractError::InvalidFunds)
    } else {
        Ok(funds[0].amount as nat)
    }
}

/// What a fault of the payment means for the operation.
pub fn payment_error(fault: PaymentFault) -> (e: ContractError)
    ensures
        e == (if fault == PaymentFault::NoFunds {
            ContractError::NoFundsSent
        } else {
            ContractError::InvalidFunds
        }),
{
    match fault {
        PaymentFault::NoFunds => ContractError::NoFundsSent,
        _ => ContractError::InvalidFunds,
    }
}

/// The amount paid in `denom`, where exactly that was paid.
pub fn must_pay(funds: &Vec<Coin>, denom: &String) -> (r: Result<u128, ContractError>)
    ensures
        match r {
            Ok(amount) => payment(funds@, denom@) == Ok::<nat, ContractError>(amount as nat),
            Err(e) => payment(funds@, denom@) == Err::<nat, ContractError>(e),
        },
{
    match outside_must_pay(funds, denom) {
        Ok(amount) => Ok(amount),
        Err(fault) => Err(payment_error(fault)),
    }
}

} // verus!
