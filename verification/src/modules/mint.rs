//! Common types of the mint module.

use vstd::prelude::*;
use crate::amount::Amount;

verus! {

/// The kind of the mint module.
pub const KIND: &'static str = "mint";

/// By default, the maximum notes per denomination when change-making for
/// users.
pub const DEFAULT_MAX_NOTES_PER_DENOMINATION: u16 = 3;

/// The version of the rules of a module.
#[derive(Clone, Copy, Debug, PartialEq, Eq, Structural)]
pub struct ModuleConsensusVersion {
    pub major: u32,
    pub minor: u32,
}

/// The version of the rules of the mint module: 2.0.
pub fn module_consensus_version() -> (version: ModuleConsensusVersion)
    ensures
        version == (ModuleConsensusVersion { major: 2, minor: 0 }),
{
    ModuleConsensusVersion { major: 2, minor: 0 }
}

/// The mint module currently doesn't define any consensus items and
/// generally throws an error on encountering one. To allow old clients to
/// still decode blocks in the future, should we decide to add consensus
/// items, this has to be an enum with only a default variant.
#[derive(Debug, Clone, Eq, PartialEq, Hash)]
pub enum MintConsensusItem {
    Default { variant: u64, bytes: Vec<u8> },
}

impl MintConsensusItem {
    /// How the item is shown.
    pub fn name(&self) -> (text: &'static str)
        ensures
            text@ == "MintConsensusItem"@,
    {
        "MintConsensusItem"
    }
}

/// Sets the mint module up.
#[derive(Debug)]
pub struct MintCommonInit;

/// Names the types of the mint module.
pub struct MintModuleTypes;

/// An input of a variant that this federation does not know.
#[derive(Clone, Copy, Debug, PartialEq, Eq, Structural, Hash)]
pub struct UnknownMintInputVariantError {
    pub variant: u64,
}

/// An output of a variant that this federation does not know.
#[derive(Clone, Copy, Debug, PartialEq, Eq, Structural, Hash)]
pub struct UnknownMintOutputVariantError {
    pub variant: u64,
}

/// Why the mint refuses an input.
#[derive(Debug, Clone, Copy, Eq, PartialEq, Structural, Hash)]
pub enum MintInputError {
    /// The note is already spent.
    SpentCoin,
    /// The note has an amount that the mint does not issue.
    InvalidAmountTier(Amount),
    /// The signature of the note is not valid.
    InvalidSignature,
    /// The input is of a version that this federation does not support.
    UnknownInputVariant(UnknownMintInputVariantError),
}

impl MintInputError {
    /// What the error says, without the values that it carries.
    pub fn message(&self) -> (text: &'static str)
        ensures
            text@ == match *self {
                MintInputError::SpentCoin => "The note is already spent"@,
                MintInputError::InvalidAmountTier(_) => {
                    "The note has an invalid amount not issued by the mint"@
                },
                MintInputError::InvalidSignature => "The note has an invalid signature"@,
                MintInputError::UnknownInputVariant(_) => {
                    "The mint input version is not supported by this federation"@
                },
            },
    {
        match self {
            MintInputError::SpentCoin => "The note is already spent",
            MintInputError::InvalidAmountTier(_) => {
                "The note has an invalid amount not issued by the mint"
            },
            MintInputError::InvalidSignature => "The note has an invalid signature",
            MintInputError::UnknownInputVariant(_) => {
                "The mint input version is not supported by this federation"
            },
        }
    }
}

/// Why the mint refuses an output.
#[derive(Debug, Clone, Copy, Eq, PartialEq, Structural, Hash)]
pub enum MintOutputError {
    /// The note has an amount that the mint does not issue.
    InvalidAmountTier(Amount),
    /// The output is of a version that this federation does not support.
    UnknownOutputVariant(UnknownMintOutputVariantError),
}

impl MintOutputError {
    /// What the error says, without the values that it carries.
    pub fn message(&self) -> (text: &'static str)
        ensures
            text@ == match *self {
                MintOutputError::InvalidAmountTier(_) => {
                    "The note has an invalid amount not issued by the mint"@
                },
                MintOutputError::UnknownOutputVariant(_) => {
                    "The mint output version is not supported by this federation"@
                },
            },
    {
        match self {
            MintOutputError::InvalidAmountTier(_) => {
                "The note has an invalid amount not issued by the mint"
            },
            MintOutputError::UnknownOutputVariant(_) => {
                "The mint output version is not supported by this federation"
            },
        }
    }
}

} // verus!
