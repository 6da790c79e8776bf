use fedimint_server::amount::Amount;
use fedimint_server::consensus::transaction::{
    input_verification_result, transaction_overflow_error, verify_transaction_funding, CoreConsensusVersion, FundingVerifier,
    TransactionError, TransactionItemAmount,
};

fn item(amount: u64, fee: u64) -> TransactionItemAmount {
    TransactionItemAmount { amount: Amount::from_msats(amount), fee: Amount::from_msats(fee) }
}

fn unbalanced(inputs: u64, outputs: u64, fee: u64) -> TransactionError {
    TransactionError::UnbalancedTransaction {
        inputs: Amount::from_msats(inputs),
        outputs: Amount::from_msats(outputs),
        fee: Amount::from_msats(fee),
    }
}

#[test]
fn an_empty_transaction_is_funded() {
    let verifier = FundingVerifier::default();
    assert_eq!(verifier.verify_funding(CoreConsensusVersion::new(2, 0)), Ok(()));
}

#[test]
fn inputs_that_pay_exactly_are_accepted_by_every_version() {
    for version in [(0, 0), (1, 9), (2, 0), (2, 1), (3, 0)] {
        let mut verifier = FundingVerifier::default();
        assert_eq!(verifier.add_input(item(100, 1)), Ok(()));
        assert_eq!(verifier.add_output(item(97, 2)), Ok(()));
        assert_eq!(
            verifier.verify_funding(CoreConsensusVersion::new(version.0, version.1)),
            Ok(())
        );
    }
}

#[test]
fn overpaying_is_accepted_from_version_2_1_on() {
    for (version, accepted) in [
        ((0, 0), false),
        ((1, 5), false),
        ((2, 0), false),
        ((2, 1), true),
        ((2, 7), true),
        ((3, 0), true),
    ] {
        let mut verifier = FundingVerifier::default();
        verifier.add_input(item(100, 1)).unwrap();
        verifier.add_output(item(50, 2)).unwrap();
        let verdict = verifier.verify_funding(CoreConsensusVersion::new(version.0, version.1));
        if accepted {
            assert_eq!(verdict, Ok(()));
        } else {
            assert_eq!(verdict, Err(unbalanced(100, 50, 3)));
        }
    }
}

#[test]
fn underpaying_is_refused_by_every_version() {
    for version in [(2, 0), (2, 1), (9, 9)] {
        let mut verifier = FundingVerifier::default();
        verifier.add_input(item(10, 1)).unwrap();
        verifier.add_output(item(10, 0)).unwrap();
        assert_eq!(
            verifier.verify_funding(CoreConsensusVersion::new(version.0, version.1)),
            Err(unbalanced(10, 10, 1))
        );
    }
}

#[test]
fn a_sum_that_does_not_fit_is_the_overflow_error() {
    assert_eq!(transaction_overflow_error(), unbalanced(0, 0, 0));

    let mut verifier = FundingVerifier::default();
    verifier.add_input(item(u64::MAX, 0)).unwrap();
    assert_eq!(verifier.add_input(item(1, 0)), Err(transaction_overflow_error()));

    let mut verifier = FundingVerifier::default();
    verifier.add_output(item(u64::MAX, 0)).unwrap();
    assert_eq!(verifier.add_output(item(1, 0)), Err(transaction_overflow_error()));

    let mut verifier = FundingVerifier::default();
    verifier.add_input(item(0, u64::MAX)).unwrap();
    assert_eq!(verifier.add_output(item(0, 1)), Err(transaction_overflow_error()));

    let mut verifier = FundingVerifier::default();
    verifier.add_output(item(u64::MAX, 1)).unwrap();
    assert_eq!(
        verifier.verify_funding(CoreConsensusVersion::new(2, 1)),
        Err(transaction_overflow_error())
    );
}

#[test]
fn an_amount_that_fits_stays_counted_when_its_fee_does_not() {
    let mut verifier = FundingVerifier::default();
    verifier.add_input(item(0, u64::MAX)).unwrap();
    assert_eq!(verifier.add_input(item(7, 1)), Err(transaction_overflow_error()));
    // the 7 are counted, the fee of 1 is not
    assert_eq!(
        verifier.verify_funding(CoreConsensusVersion::new(2, 0)),
        Err(unbalanced(7, 0, u64::MAX))
    );
}

#[test]
fn a_refused_amount_is_not_counted() {
    let mut verifier = FundingVerifier::default();
    verifier.add_input(item(u64::MAX, 0)).unwrap();
    assert_eq!(verifier.add_input(item(1, 5)), Err(transaction_overflow_error()));
    assert_eq!(
        verifier.verify_funding(CoreConsensusVersion::new(2, 0)),
        Err(unbalanced(u64::MAX, 0, 0))
    );
}

#[test]
fn a_whole_transaction_is_checked_in_one_go() {
    let v20 = CoreConsensusVersion::new(2, 0);
    let v21 = CoreConsensusVersion::new(2, 1);
    assert_eq!(verify_transaction_funding(&vec![], &vec![], v20), Ok(()));
    assert_eq!(
        verify_transaction_funding(&vec![item(60, 1), item(40, 1)], &vec![item(97, 1)], v20),
        Ok(())
    );
    assert_eq!(
        verify_transaction_funding(&vec![item(60, 1), item(40, 1)], &vec![item(90, 1)], v20),
        Err(unbalanced(100, 90, 3))
    );
    assert_eq!(
        verify_transaction_funding(&vec![item(60, 1), item(40, 1)], &vec![item(90, 1)], v21),
        Ok(())
    );
    assert_eq!(
        verify_transaction_funding(&vec![item(u64::MAX, 0), item(1, 0)], &vec![], v21),
        Err(transaction_overflow_error())
    );
    assert_eq!(
        verify_transaction_funding(&vec![], &vec![item(u64::MAX, 0), item(0, 1)], v21),
        Err(transaction_overflow_error())
    );
}

#[test]
fn versions_are_ordered_by_major_then_minor() {
    let v = CoreConsensusVersion::new(2, 1);
    assert!(v.at_least(CoreConsensusVersion::new(2, 1)));
    assert!(v.at_least(CoreConsensusVersion::new(2, 0)));
    assert!(v.at_least(CoreConsensusVersion::new(1, 200)));
    assert!(!v.at_least(CoreConsensusVersion::new(2, 2)));
    assert!(!v.at_least(CoreConsensusVersion::new(3, 0)));
}

#[test]
fn amounts_add_and_subtract_within_their_range() {
    let a = Amount::from_msats(5);
    let b = Amount::from_msats(7);
    assert_eq!(a.checked_add(b), Some(Amount::from_msats(12)));
    assert_eq!(Amount::from_msats(u64::MAX).checked_add(Amount::from_msats(1)), None);
    assert_eq!(Amount::from_msats(u64::MAX).checked_add(Amount::zero()), Some(Amount::from_msats(u64::MAX)));
    assert_eq!(b.saturating_sub(a), Amount::from_msats(2));
    assert_eq!(a.saturating_sub(b), Amount::zero());
    assert_eq!(Amount::zero().msats, 0);
}

#[test]
fn a_failed_check_of_the_inputs_is_an_invalid_witness_length() {
    assert_eq!(input_verification_result(true), Ok(()));
    assert_eq!(input_verification_result(false), Err(TransactionError::InvalidWitnessLength));
}

#[test]
fn a_refused_item_is_an_error_and_counts_nothing() {
    let mut verifier = FundingVerifier::default();
    assert_eq!(verifier.add_processed_input(Some(item(10, 1))), Ok(()));
    assert_eq!(verifier.add_processed_input(None), Err(TransactionError::Input));
    assert_eq!(verifier.add_processed_output(None), Err(TransactionError::Output));
    assert_eq!(verifier.add_processed_output(Some(item(9, 0))), Ok(()));
    assert_eq!(verifier.verify_funding(CoreConsensusVersion::new(2, 0)), Ok(()));
}
