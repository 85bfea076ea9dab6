//! The failures of the ledger's operations.
use vstd::prelude::*;

verus! {

/// Why a stored slot could not be read as a record.
#[derive(Clone, Copy, Debug, PartialEq, Eq, Structural)]
pub enum DecodeError {
    /// The slot's discriminator names another record kind.
    KindMismatch,
    /// The bytes end before a whole record has been read.
    Truncated,
    /// A whole record was read before the declared length was used up.
    TrailingGarbage,
}

/// Why an operation of the ledger failed; it then changed nothing.
#[derive(Clone, Copy, Debug, PartialEq, Eq, Structural)]
pub enum DaoError {
    GroupIdTooLong,
    NameTooLong,
    DescriptionTooLong,
    ProposalIdTooLong,
    TitleTooLong,
    InvalidChoiceCount,
    /// A choice label is empty.
    EmptyChoiceLabel,
    InvalidVotingPeriod,
    VotingStartInPast,
    VotingNotActive,
    InvalidChoice,
    AlreadyVoted,
    TokenAccountRequired,
    InvalidTokenMint,
    NoVotingPower,
    Unauthorized,
    MemberAlreadyExists,
    MemberNotFound,
    InvalidTelegramId,
    /// A vote would carry a choice's total past the largest counter.
    VoteCountOverflow,
    /// The derived address is already taken.
    AlreadyExists,
    /// No record is stored at the address.
    NotFound,
    /// The stored bytes are not a record of the expected kind.
    InvalidRecord,
    /// The record does not fit in its slot.
    RecordTooLarge,
    /// No address could be derived from the seeds.
    DerivationExhausted,
    /// The instruction's discriminator names no operation.
    UnknownDiscriminator,
    /// The instruction's payload is not what its operation takes.
    InvalidInstructionData,
    /// A required signature is absent.
    MissingSigner,
    /// A supplied account is not the one the operation requires.
    RoleMismatch,
}

impl DaoError {
    /// A message for people.
    pub fn message(&self) -> (r: &'static str) {
        match self {
            DaoError::GroupIdTooLong => "Group ID too long (max 50 characters)",
            DaoError::NameTooLong => "Name too long (max 100 characters)",
            DaoError::DescriptionTooLong => "Description too long (max 500 characters)",
            DaoError::ProposalIdTooLong => "Proposal ID too long (max 50 characters)",
            DaoError::TitleTooLong => "Title too long (max 200 characters)",
            DaoError::InvalidChoiceCount => "Invalid choice count (must be between 2 and 10)",
            DaoError::EmptyChoiceLabel => "Choice labels cannot be empty",
            DaoError::InvalidVotingPeriod => "Invalid voting period",
            DaoError::VotingStartInPast => "Voting start time cannot be in the past",
            DaoError::VotingNotActive => "Voting is not currently active",
            DaoError::InvalidChoice => "Invalid choice",
            DaoError::AlreadyVoted => "User has already voted",
            DaoError::TokenAccountRequired => "Token account is required for token-weighted voting",
            DaoError::InvalidTokenMint => "Invalid token mint",
            DaoError::NoVotingPower => "No voting power",
            DaoError::Unauthorized => "Unauthorized",
            DaoError::MemberAlreadyExists => "Member already exists",
            DaoError::MemberNotFound => "Member not found",
            DaoError::InvalidTelegramId => "Invalid Telegram ID",
            DaoError::VoteCountOverflow => "Vote count overflow",
            DaoError::AlreadyExists => "Account already exists",
            DaoError::NotFound => "Account not found",
            DaoError::InvalidRecord => "Account data could not be decoded",
            DaoError::RecordTooLarge => "Record does not fit in its account",
            DaoError::DerivationExhausted => "No valid address for these seeds",
            DaoError::UnknownDiscriminator => "Unknown instruction",
            DaoError::InvalidInstructionData => "Invalid instruction data",
            DaoError::MissingSigner => "Missing required signature",
            DaoError::RoleMismatch => "Account does not match its role",
        }
    }
}

} // verus!
