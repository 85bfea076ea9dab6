//! What each successful operation reports.
use crate::address::Address;
use vstd::prelude::*;

verus! {

#[derive(Clone, Debug, PartialEq, Eq)]
pub struct GroupCreatedEvent {
    pub group_id: Vec<u8>,
    pub authority: Address,
    pub group_pubkey: Address,
    pub timestamp: i64,
}

#[derive(Clone, Debug, PartialEq, Eq)]
pub struct ProposalCreatedEvent {
    pub group_id: Vec<u8>,
    pub proposal_id: Vec<u8>,
    pub creator: Address,
    pub proposal_pubkey: Address,
    pub voting_start: i64,
    pub voting_end: i64,
    pub timestamp: i64,
}

#[derive(Clone, Debug, PartialEq, Eq)]
pub struct VoteCastEvent {
    pub group_id: Vec<u8>,
    pub proposal_id: Vec<u8>,
    pub voter: Address,
    pub choice: u8,
    pub vote_weight: u64,
    pub timestamp: i64,
}

#[derive(Clone, Debug, PartialEq, Eq)]
pub struct MemberAddedEvent {
    pub group_id: Vec<u8>,
    pub member: Address,
    pub timestamp: i64,
}

#[derive(Clone, Debug, PartialEq, Eq)]
pub struct MemberRemovedEvent {
    pub group_id: Vec<u8>,
    pub member: Address,
    pub timestamp: i64,
}

#[derive(Clone, Copy, Debug, PartialEq, Eq)]
pub struct UserAccountCreatedEvent {
    pub telegram_id: i64,
    pub wallet_pubkey: Address,
    pub timestamp: i64,
}

#[derive(Clone, Copy, Debug, PartialEq, Eq)]
pub struct UserLoginEvent {
    pub telegram_id: i64,
    pub wallet_pubkey: Address,
    pub timestamp: i64,
}

} // verus!
