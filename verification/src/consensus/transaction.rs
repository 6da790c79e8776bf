//! Funding of a transaction: what goes in has to pay for what comes out
//! and for the fees.

use vstd::prelude::*;
use crate::amount::Amount;

verus! {

/// What an input brings in, or an output takes out, and the fee for it.
#[derive(Clone, Copy, Debug, PartialEq, Eq, Structural)]
pub struct TransactionItemAmount {
    pub amount: Amount,
    pub fee: Amount,
}

/// The version of the consensus rules.
#[derive(Clone, Copy, Debug, PartialEq, Eq, Structural)]
pub struct CoreConsensusVersion {
    pub major: u32,
    pub minor: u32,
}

impl CoreConsensusVersion {
    /// The version with the given numbers.
    pub fn new(major: u32, minor: u32) -> (version: CoreConsensusVersion)
        ensures
            version == (CoreConsensusVersion { major, minor }),
    {
        CoreConsensusVersion { major, minor }
    }

    /// Whether this version is `other` or a later one: versions are ordered
    /// by their major number, then by their minor number.
    pub open spec fn spec_at_least(self, other: CoreConsensusVersion) -> bool {
        self.major > other.major || (self.major == other.major && self.minor >= other.minor)
    }

    /// Whether this version is `other` or a later one.
    pub fn at_least(self, other: CoreConsensusVersion) -> (r: bool)
        ensures
            r == self.spec_at_least(other),
    {
        self.major > other.major || (self.major == other.major && self.minor >= other.minor)
    }
}

/// The first version that lets a transaction pay more than it has to.
pub open spec fn spec_overpay_version() -> CoreConsensusVersion {
    CoreConsensusVersion { major: 2, minor: 1 }
}

/// Why a transaction is refused.
#[derive(Clone, Copy, Debug, PartialEq, Eq, Structural)]
pub enum TransactionError {
    /// The inputs do not pay for the outputs and the fees.
    UnbalancedTransaction { inputs: Amount, outputs: Amount, fee: Amount },
    /// The number of signatures is not the number of inputs, or an input
    /// did not pass the check of its module.
    InvalidWitnessLength,
    /// A module refused an input.
    Input,
    /// A module refused an output.
    Output,
}

/// The error for a sum that is too large to hold: an unbalanced transaction
/// with all amounts at zero.
pub open spec fn spec_transaction_overflow_error() -> TransactionError {
    TransactionError::UnbalancedTransaction {
        inputs: Amount::spec_zero(),
        outputs: Amount::spec_zero(),
        fee: Amount::spec_zero(),
    }
}

/// The error for a sum that is too large to hold.
pub fn transaction_overflow_error() -> (error: TransactionError)
    ensures
        error == spec_transaction_overflow_error(),
{
    TransactionError::UnbalancedTransaction {
        inputs: Amount::zero(),
        outputs: Amount::zero(),
        fee: Amount::zero(),
    }
}

/// What the modules' check of all inputs comes to. The inputs are checked
/// side by side and in no order, so which of them failed, and why, is not
/// something that all members would agree on: every failure is reported as
/// an invalid witness length.
pub fn input_verification_result(all_valid: bool) -> (r: Result<(), TransactionError>)
    ensures
        r == if all_valid {
            Ok::<(), TransactionError>(())
        } else {
            Err::<(), TransactionError>(TransactionError::InvalidWitnessLength)
        },
{
    if all_valid {
        Ok(())
    } else {
        Err(TransactionError::InvalidWitnessLength)
    }
}

/// Adds up what the inputs and outputs of a transaction are worth.
pub struct FundingVerifier {
    input_amount: Amount,
    output_amount: Amount,
    fee_amount: Amount,
}

/// The three sums of a [`FundingVerifier`], in millisatoshi.
pub struct FundingModel {
    pub inputs: nat,
    pub outputs: nat,
    pub fees: nat,
}

impl FundingModel {
    /// Whether the sums are a funded transaction under `version`: the
    /// inputs pay exactly for outputs and fees, or, from version 2.1 on,
    /// for more.
    pub open spec fn funded(self, version: CoreConsensusVersion) -> bool {
        self.inputs == self.outputs + self.fees || (self.inputs > self.outputs + self.fees
            && version.spec_at_least(spec_overpay_version()))
    }

    /// The sums after an input was counted, and whether it could be: the
    /// amount is counted before the fee, so an amount that fits stays
    /// counted when its fee does not.
    pub open spec fn with_input(self, item: TransactionItemAmount) -> (
        FundingModel,
        Result<(), TransactionError>,
    ) {
        if self.inputs + item.amount.msats > u64::MAX {
            (self, Err(spec_transaction_overflow_error()))
        } else if self.fees + item.fee.msats > u64::MAX {
            (
                FundingModel { inputs: self.inputs + item.amount.msats as nat, ..self },
                Err(spec_transaction_overflow_error()),
            )
        } else {
            (
                FundingModel {
                    inputs: self.inputs + item.amount.msats as nat,
                    fees: self.fees + item.fee.msats as nat,
                    ..self
                },
                Ok(()),
            )
        }
    }

    /// The sums after an output was counted, and whether it could be: the
    /// amount is counted before the fee, so an amount that fits stays
    /// counted when its fee does not.
    pub open spec fn with_output(self, item: TransactionItemAmount) -> (
        FundingModel,
        Result<(), TransactionError>,
    ) {
        if self.outputs + item.amount.msats > u64::MAX {
            (self, Err(spec_transaction_overflow_error()))
        } else if self.fees + item.fee.msats > u64::MAX {
            (
                FundingModel { outputs: self.outputs + item.amount.msats as nat, ..self },
                Err(spec_transaction_overflow_error()),
            )
        } else {
            (
                FundingModel {
                    outputs: self.outputs + item.amount.msats as nat,
                    fees: self.fees + item.fee.msats as nat,
                    ..self
                },
                Ok(()),
            )
        }
    }

    /// What the check of the sums gives under `version`.
    pub open spec fn verdict(self, version: CoreConsensusVersion) -> Result<(), TransactionError> {
        if self.outputs + self.fees > u64::MAX {
            Err(spec_transaction_overflow_error())
        } else if self.funded(version) {
            Ok(())
        } else {
            Err(
                TransactionError::UnbalancedTransaction {
                    inputs: Amount { msats: self.inputs as u64 },
                    outputs: Amount { msats: self.outputs as u64 },
                    fee: Amount { msats: self.fees as u64 },
                },
            )
        }
    }
}

impl View for FundingVerifier {
    type V = FundingModel;

    closed spec fn view(&self) -> FundingModel {
        FundingModel {
            inputs: self.input_amount.msats as nat,
            outputs: self.output_amount.msats as nat,
            fees: self.fee_amount.msats as nat,
        }
    }
}

impl FundingVerifier {
    /// The sums fit into the numbers that hold them.
    pub proof fn lemma_sums_fit(self)
        ensures
            self@.inputs <= u64::MAX,
            self@.outputs <= u64::MAX,
            self@.fees <= u64::MAX,
    {
    }

    /// Counts an input: its amount goes to the inputs, its fee to the fees.
    /// A sum that is too large to hold is an error; the amount is counted
    /// before the fee, so an amount that fits stays counted when the fee
    /// does not.
    pub fn add_input(&mut self, input_amount: TransactionItemAmount) -> (r: Result<
        (),
        TransactionError,
    >)
        ensures
            (final(self)@, r) == old(self)@.with_input(input_amount),
    {
        match self.input_amount.checked_add(input_amount.amount) {
            Some(sum) => {
                self.input_amount = sum;
            },
            None => {
                return Err(transaction_overflow_error());
            },
        }
        match self.fee_amount.checked_add(input_amount.fee) {
            Some(sum) => {
                self.fee_amount = sum;
            },
            None => {
                return Err(transaction_overflow_error());
            },
        }
        Ok(())
    }

    /// Counts an input that its module has processed: `None` says that
    /// the module refused it, which is an error and changes nothing.
    pub fn add_processed_input(&mut self, processed: Option<TransactionItemAmount>) -> (r: Result<
        (),
        TransactionError,
    >)
        ensures
            (final(self)@, r) == match processed {
                Some(amount) => old(self)@.with_input(amount),
                None => (old(self)@, Err(TransactionError::Input)),
            },
    {
        match processed {
            Some(amount) => self.add_input(amount),
            None => Err(TransactionError::Input),
        }
    }

    /// Counts an output that its module has processed: `None` says that
    /// the module refused it, which is an error and changes nothing.
    pub fn add_processed_output(&mut self, processed: Option<TransactionItemAmount>) -> (r: Result<
        (),
        TransactionError,
    >)
        ensures
            (final(self)@, r) == match processed {
                Some(amount) => old(self)@.with_output(amount),
                None => (old(self)@, Err(TransactionError::Output)),
            },
    {
        match processed {
            Some(amount) => self.add_output(amount),
            None => Err(TransactionError::Output),
        }
    }

    /// Counts an output: its amount goes to the outputs, its fee to the
    /// fees. A sum that is too large to hold is an error; the amount is
    /// counted before the fee, so an amount that fits stays counted when
    /// the fee does not.
    pub fn add_output(&mut self, output_amount: TransactionItemAmount) -> (r: Result<
        (),
        TransactionError,
    >)
        ensures
            (final(self)@, r) == old(self)@.with_output(output_amount),
    {
        match self.output_amount.checked_add(output_amount.amount) {
            Some(sum) => {
                self.output_amount = sum;
            },
            None => {
                return Err(transaction_overflow_error());
            },
        }
        match self.fee_amount.checked_add(output_amount.fee) {
            Some(sum) => {
                self.fee_amount = sum;
            },
            None => {
                return Err(transaction_overflow_error());
            },
        }
        Ok(())
    }

    /// Checks the sums: the inputs have to pay exactly for the outputs and
    /// the fees; from version 2.1 on they may pay for more.
    pub fn verify_funding(self, version: CoreConsensusVersion) -> (r: Result<
        (),
        TransactionError,
    >)
        ensures
            r == self@.verdict(version),
    {
        let outputs_and_fees = match self.output_amount.checked_add(self.fee_amount) {
            Some(sum) => sum,
            None => {
                return Err(transaction_overflow_error());
            },
        };
        if self.input_amount.msats == outputs_and_fees.msats {
            return Ok(());
        }
        if self.input_amount.msats > outputs_and_fees.msats && version.at_least(
            CoreConsensusVersion::new(2, 1),
        ) {
            return Ok(());
        }
        Err(
            TransactionError::UnbalancedTransaction {
                inputs: self.input_amount,
                outputs: self.output_amount,
                fee: self.fee_amount,
            },
        )
    }
}

impl Default for FundingVerifier {
    /// A verifier that has counted nothing.
    fn default() -> (verifier: FundingVerifier)
        ensures
            verifier@ == (FundingModel { inputs: 0, outputs: 0, fees: 0 }),
    {
        FundingVerifier {
            input_amount: Amount::zero(),
            output_amount: Amount::zero(),
            fee_amount: Amount::zero(),
        }
    }
}

/// The sum of the amounts of `items`, in millisatoshi.
pub open spec fn total_amount(items: Seq<TransactionItemAmount>) -> nat
    decreases items.len(),
{
    if items.len() == 0 {
        0
    } else {
        total_amount(items.drop_last()) + items.last().amount.msats as nat
    }
}

/// The sum of the fees of `items`, in millisatoshi.
pub open spec fn total_fee(items: Seq<TransactionItemAmount>) -> nat
    decreases items.len(),
{
    if items.len() == 0 {
        0
    } else {
        total_fee(items.drop_last()) + items.last().fee.msats as nat
    }
}

/// A sum over a list is at least the sum over any of its beginnings.
pub proof fn lemma_totals_grow(items: Seq<TransactionItemAmount>, n: int)
    requires
        0 <= n <= items.len(),
    ensures
        total_amount(items.take(n)) <= total_amount(items),
        total_fee(items.take(n)) <= total_fee(items),
    decreases items.len() - n,
{
    if n < items.len() {
        lemma_totals_grow(items, n + 1);
        assert(items.take(n + 1).drop_last() =~= items.take(n));
    } else {
        assert(items.take(n) =~= items);
    }
}

/// What the funding check of a whole transaction gives: all inputs are
/// counted, then all outputs, then the sums are checked. A sum that is too
/// large to hold is the overflow error wherever it comes up.
pub open spec fn spec_verify_transaction_funding(
    inputs: Seq<TransactionItemAmount>,
    outputs: Seq<TransactionItemAmount>,
    version: CoreConsensusVersion,
) -> Result<(), TransactionError> {
    let sums = FundingModel {
        inputs: total_amount(inputs),
        outputs: total_amount(outputs),
        fees: total_fee(inputs) + total_fee(outputs),
    };
    if sums.inputs > u64::MAX || sums.outputs + sums.fees > u64::MAX {
        Err(spec_transaction_overflow_error())
    } else {
        sums.verdict(version)
    }
}

/// The funding check of a transaction whose modules have said what each
/// input and output is worth.
pub fn verify_transaction_funding(
    inputs: &Vec<TransactionItemAmount>,
    outputs: &Vec<TransactionItemAmount>,
    version: CoreConsensusVersion,
) -> (r: Result<(), TransactionError>)
    ensures
        r == spec_verify_transaction_funding(inputs@, outputs@, version),
{
    let mut funding_verifier = FundingVerifier::default();
    let mut i: usize = 0;
    while i < inputs.len()
        invariant
            0 <= i <= inputs.len(),
            funding_verifier@.inputs == total_amount(inputs@.take(i as int)),
            funding_verifier@.outputs == 0,
            funding_verifier@.fees == total_fee(inputs@.take(i as int)),
        decreases inputs.len() - i,
    {
        proof {
            assert(inputs@.take(i + 1).drop_last() =~= inputs@.take(i as int));
            lemma_totals_grow(inputs@, i + 1);
            lemma_totals_grow(outputs@, 0);
            funding_verifier.lemma_sums_fit();
        }
        match funding_verifier.add_input(inputs[i]) {
            Ok(()) => {},
            Err(error) => {
                return Err(error);
            },
        }
        i = i + 1;
    }
    proof {
        assert(inputs@.take(i as int) =~= inputs@);
    }
    let mut j: usize = 0;
    while j < outputs.len()
        invariant
            0 <= j <= outputs.len(),
            funding_verifier@.inputs == total_amount(inputs@),
            funding_verifier@.outputs == total_amount(outputs@.take(j as int)),
            funding_verifier@.fees == total_fee(inputs@) + total_fee(outputs@.take(j as int)),
        decreases outputs.len() - j,
    {
        proof {
            assert(outputs@.take(j + 1).drop_last() =~= outputs@.take(j as int));
            lemma_totals_grow(outputs@, j + 1);
            funding_verifier.lemma_sums_fit();
        }
        match funding_verifier.add_output(outputs[j]) {
            Ok(()) => {},
            Err(error) => {
                return Err(error);
            },
        }
        j = j + 1;
    }
    proof {
        assert(outputs@.take(j as int) =~= outputs@);
        funding_verifier.lemma_sums_fit();
    }
    funding_verifier.verify_funding(version)
}

} // verus!
