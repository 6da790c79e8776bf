use fedimint_server::amount::Amount;
use fedimint_server::modules::dummy::{
    create_final_inputs_and_outputs, funding_gap, DummyClientInit, DummyFundingError,
    FinalFunding, FundingGap,
};
use fedimint_server::modules::mint::{
    module_consensus_version, MintCommonInit, MintConsensusItem, MintInputError,
    MintOutputError, ModuleConsensusVersion, UnknownMintInputVariantError,
    UnknownMintOutputVariantError, DEFAULT_MAX_NOTES_PER_DENOMINATION, KIND,
};

fn msats(n: u64) -> Amount {
    Amount::from_msats(n)
}

#[test]
fn the_mint_module_names_itself() {
    assert_eq!(KIND, "mint");
    assert_eq!(DEFAULT_MAX_NOTES_PER_DENOMINATION, 3);
    assert_eq!(module_consensus_version(), ModuleConsensusVersion { major: 2, minor: 0 });
    assert_eq!(format!("{:?}", MintCommonInit), "MintCommonInit");
}

#[test]
fn a_consensus_item_of_the_mint_is_shown_by_its_name() {
    let item = MintConsensusItem::Default { variant: 7, bytes: vec![1, 2, 3] };
    assert_eq!(item.name(), "MintConsensusItem");
    assert_eq!(item.clone(), item);
}

#[test]
fn every_mint_error_has_its_message() {
    assert_eq!(MintInputError::SpentCoin.message(), "The note is already spent");
    assert_eq!(
        MintInputError::InvalidAmountTier(msats(5)).message(),
        "The note has an invalid amount not issued by the mint"
    );
    assert_eq!(MintInputError::InvalidSignature.message(), "The note has an invalid signature");
    assert_eq!(
        MintInputError::UnknownInputVariant(UnknownMintInputVariantError { variant: 9 }).message(),
        "The mint input version is not supported by this federation"
    );
    assert_eq!(
        MintOutputError::InvalidAmountTier(msats(5)).message(),
        "The note has an invalid amount not issued by the mint"
    );
    assert_eq!(
        MintOutputError::UnknownOutputVariant(UnknownMintOutputVariantError { variant: 9 })
            .message(),
        "The mint output version is not supported by this federation"
    );
}

#[test]
fn the_gap_is_what_makes_both_sides_equal() {
    assert_eq!(funding_gap(msats(3), msats(10)), FundingGap::MissingInput(msats(7)));
    assert_eq!(funding_gap(msats(10), msats(10)), FundingGap::Balanced);
    assert_eq!(funding_gap(msats(10), msats(3)), FundingGap::MissingOutput(msats(7)));
    assert_eq!(funding_gap(msats(0), msats(u64::MAX)), FundingGap::MissingInput(msats(u64::MAX)));
}

#[test]
fn a_missing_input_is_paid_from_the_funds() {
    assert_eq!(
        create_final_inputs_and_outputs(true, msats(3), msats(10), msats(20)),
        Ok(FinalFunding { gap: FundingGap::MissingInput(msats(7)), funds: msats(13) })
    );
    assert_eq!(
        create_final_inputs_and_outputs(true, msats(3), msats(10), msats(7)),
        Ok(FinalFunding { gap: FundingGap::MissingInput(msats(7)), funds: msats(0) })
    );
    assert_eq!(
        create_final_inputs_and_outputs(true, msats(3), msats(10), msats(6)),
        Err(DummyFundingError::InsufficientFunds)
    );
}

#[test]
fn a_surplus_becomes_an_output_and_leaves_the_funds() {
    assert_eq!(
        create_final_inputs_and_outputs(true, msats(10), msats(3), msats(0)),
        Ok(FinalFunding { gap: FundingGap::MissingOutput(msats(7)), funds: msats(0) })
    );
    assert_eq!(
        create_final_inputs_and_outputs(true, msats(10), msats(10), msats(5)),
        Ok(FinalFunding { gap: FundingGap::Balanced, funds: msats(5) })
    );
}

#[test]
fn only_bitcoin_is_handled() {
    assert_eq!(
        create_final_inputs_and_outputs(false, msats(10), msats(10), msats(5)),
        Err(DummyFundingError::NotBitcoin)
    );
    assert_eq!(DummyFundingError::NotBitcoin.message(), "Module can only handle Bitcoin");
    assert_eq!(DummyFundingError::InsufficientFunds.message(), "Insufficient funds");
    assert_eq!(format!("{:?}", DummyClientInit), "DummyClientInit");
}
