//! What the client of the dummy module decides when it balances a
//! transaction.

use vstd::prelude::*;
use crate::amount::Amount;

verus! {

/// Sets the client of the dummy module up.
#[derive(Debug, Clone)]
pub struct DummyClientInit;

/// What a transaction lacks to be balanced.
#[derive(Clone, Copy, Debug, PartialEq, Eq, Structural)]
pub enum FundingGap {
    /// The outputs are worth more than the inputs: an input of this amount
    /// is missing.
    MissingInput(Amount),
    /// Inputs and outputs are worth the same.
    Balanced,
    /// The inputs are worth more than the outputs: an output of this amount
    /// is missing.
    MissingOutput(Amount),
}

/// What a transaction with the given sums lacks to be balanced.
pub open spec fn spec_funding_gap(input_amount: Amount, output_amount: Amount) -> FundingGap {
    if input_amount.msats < output_amount.msats {
        FundingGap::MissingInput(
            Amount { msats: (output_amount.msats - input_amount.msats) as u64 },
        )
    } else if input_amount.msats == output_amount.msats {
        FundingGap::Balanced
    } else {
        FundingGap::MissingOutput(
            Amount { msats: (input_amount.msats - output_amount.msats) as u64 },
        )
    }
}

/// What a transaction with the given sums lacks to be balanced.
pub fn funding_gap(input_amount: Amount, output_amount: Amount) -> (gap: FundingGap)
    ensures
        gap == spec_funding_gap(input_amount, output_amount),
{
    if input_amount.msats < output_amount.msats {
        FundingGap::MissingInput(output_amount.saturating_sub(input_amount))
    } else if input_amount.msats == output_amount.msats {
        FundingGap::Balanced
    } else {
        FundingGap::MissingOutput(input_amount.saturating_sub(output_amount))
    }
}

/// Why the dummy client cannot balance a transaction.
#[derive(Clone, Copy, Debug, PartialEq, Eq, Structural)]
pub enum DummyFundingError {
    /// The amounts are not in Bitcoin.
    NotBitcoin,
    /// The client has less than the transaction lacks.
    InsufficientFunds,
}

impl DummyFundingError {
    /// What the error says.
    pub fn message(&self) -> (text: &'static str)
        ensures
            text@ == match *self {
                DummyFundingError::NotBitcoin => "Module can only handle Bitcoin"@,
                DummyFundingError::InsufficientFunds => "Insufficient funds"@,
            },
    {
        match self {
            DummyFundingError::NotBitcoin => "Module can only handle Bitcoin",
            DummyFundingError::InsufficientFunds => "Insufficient funds",
        }
    }
}

/// What the client has to add to a transaction, and what it has left.
#[derive(Clone, Copy, Debug, PartialEq, Eq, Structural)]
pub struct FinalFunding {
    /// What the transaction lacked.
    pub gap: FundingGap,
    /// The funds of the client after it paid for a missing input.
    pub funds: Amount,
}

/// How the client balances a transaction: a missing input is paid from its
/// funds, which have to suffice; a missing output takes the surplus and
/// leaves the funds as they are.
pub open spec fn spec_final_funding(
    is_bitcoin: bool,
    input_amount: Amount,
    output_amount: Amount,
    our_funds: Amount,
) -> Result<FinalFunding, DummyFundingError> {
    if !is_bitcoin {
        Err(DummyFundingError::NotBitcoin)
    } else {
        match spec_funding_gap(input_amount, output_amount) {
            FundingGap::MissingInput(missing) => {
                if our_funds.msats < missing.msats {
                    Err(DummyFundingError::InsufficientFunds)
                } else {
                    Ok(
                        FinalFunding {
                            gap: FundingGap::MissingInput(missing),
                            funds: Amount { msats: (our_funds.msats - missing.msats) as u64 },
                        },
                    )
                }
            },
            gap => Ok(FinalFunding { gap, funds: our_funds }),
        }
    }
}

/// How the client balances a transaction with the given sums, holding
/// `our_funds`.
pub fn create_final_inputs_and_outputs(
    is_bitcoin: bool,
    input_amount: Amount,
    output_amount: Amount,
    our_funds: Amount,
) -> (r: Result<FinalFunding, DummyFundingError>)
    ensures
        r == spec_final_funding(is_bitcoin, input_amount, output_amount, our_funds),
{
    if !is_bitcoin {
        return Err(DummyFundingError::NotBitcoin);
    }
    match funding_gap(input_amount, output_amount) {
        FundingGap::MissingInput(missing) => {
            if our_funds.msats < missing.msats {
                return Err(DummyFundingError::InsufficientFunds);
            }
            let updated = our_funds.saturating_sub(missing);
            Ok(FinalFunding { gap: FundingGap::MissingInput(missing), funds: updated })
        },
        FundingGap::Balanced => Ok(FinalFunding { gap: FundingGap::Balanced, funds: our_funds }),
        FundingGap::MissingOutput(surplus) => Ok(
            FinalFunding { gap: FundingGap::MissingOutput(surplus), funds: our_funds },
        ),
    }
}

/// A balanced transaction stays as it is, and whatever is added makes the
/// two sides equal.
pub proof fn lemma_gap_balances(input_amount: Amount, output_amount: Amount)
    ensures
        match spec_funding_gap(input_amount, output_amount) {
            FundingGap::MissingInput(missing) => input_amount.msats + missing.msats
                == output_amount.msats && missing.msats > 0,
            FundingGap::Balanced => input_amount == output_amount,
            FundingGap::MissingOutput(surplus) => output_amount.msats + surplus.msats
                == input_amount.msats && surplus.msats > 0,
        },
{
}

} // verus!
