//! The rules on records: what a new group or proposal must satisfy, how a
//! vote is weighed and recorded, membership changes, and the tally. State is
//! a pure function of the clock against a proposal's voting window.
use crate::address::Address;
use crate::error::DaoError;
use crate::records::{
    Group, GroupMember, GroupMemberModel, GroupModel, Proposal, ProposalModel, VoterInfo,
    VoterInfoModel,
};
use crate::wire::{lemma_bytes_model, models, Wire};
use vstd::prelude::*;

verus! {

broadcast use lemma_bytes_model;

pub const MAX_GROUP_ID_LEN: usize = 50;

pub const MAX_NAME_LEN: usize = 100;

pub const MAX_GROUP_DESCRIPTION_LEN: usize = 500;

pub const MAX_PROPOSAL_ID_LEN: usize = 50;

pub const MAX_TITLE_LEN: usize = 200;

pub const MAX_PROPOSAL_DESCRIPTION_LEN: usize = 1000;

pub const MIN_CHOICES: usize = 2;

pub const MAX_CHOICES: usize = 10;

/// The key that marks voting weighted by the voter's native balance.
pub open spec fn native_mint() -> Seq<u8> {
    seq![
        6u8, 155, 136, 87, 254, 171, 129, 132, 251, 104, 127, 99, 70, 24, 192, 53,
        218, 196, 57, 220, 26, 235, 59, 85, 152, 160, 240, 0, 0, 0, 0, 1,
    ]
}

pub fn native_mint_address() -> (r: Address)
    ensures
        r@ == native_mint(),
{
    let r = Address {
        bytes: [
            6u8, 155, 136, 87, 254, 171, 129, 132, 251, 104, 127, 99, 70, 24, 192, 53,
            218, 196, 57, 220, 26, 235, 59, 85, 152, 160, 240, 0, 0, 0, 0, 1,
        ],
    };
    assert(r@ =~= native_mint());
    r
}

/// Whether two addresses are the same.
pub fn same_address(a: &Address, b: &Address) -> (r: bool)
    ensures
        r == (a@ == b@),
{
    let mut i: usize = 0;
    while i < 32
        invariant
            i <= 32,
            a@.len() == 32,
            b@.len() == 32,
            forall|j: int| 0 <= j < i ==> a@[j] == b@[j],
        decreases 32 - i,
    {
        if a.bytes[i] != b.bytes[i] {
            return false;
        }
        i += 1;
    }
    assert(a@ =~= b@);
    true
}

/// A fresh copy of a byte text.
pub fn copy_text(s: &Vec<u8>) -> (r: Vec<u8>)
    ensures
        r@ == s@,
{
    let mut r: Vec<u8> = Vec::new();
    let mut i: usize = 0;
    while i < s.len()
        invariant
            i <= s@.len(),
            r@ == s@.take(i as int),
        decreases s@.len() - i,
    {
        r.push(s[i]);
        i += 1;
        assert(r@ =~= s@.take(i as int));
    }
    assert(s@.take(s@.len() as int) =~= s@);
    r
}

// ---- groups ----

/// The first rule that a new group's texts break, if any.
pub open spec fn group_check(group_id: Seq<u8>, name: Seq<u8>, description: Seq<u8>) -> Option<DaoError> {
    if group_id.len() > MAX_GROUP_ID_LEN {
        Some(DaoError::GroupIdTooLong)
    } else if name.len() > MAX_NAME_LEN {
        Some(DaoError::NameTooLong)
    } else if description.len() > MAX_GROUP_DESCRIPTION_LEN {
        Some(DaoError::DescriptionTooLong)
    } else {
        None
    }
}

pub open spec fn check_result(c: Option<DaoError>) -> Result<(), DaoError> {
    match c {
        Some(e) => Err(e),
        None => Ok(()),
    }
}

pub fn check_group(group_id: &Vec<u8>, name: &Vec<u8>, description: &Vec<u8>) -> (r: Result<(), DaoError>)
    ensures
        r == check_result(group_check(group_id@, name@, description@)),
{
    if group_id.len() > MAX_GROUP_ID_LEN {
        Err(DaoError::GroupIdTooLong)
    } else if name.len() > MAX_NAME_LEN {
        Err(DaoError::NameTooLong)
    } else if description.len() > MAX_GROUP_DESCRIPTION_LEN {
        Err(DaoError::DescriptionTooLong)
    } else {
        Ok(())
    }
}

pub open spec fn fresh_group(
    group_id: Seq<u8>,
    name: Seq<u8>,
    description: Seq<u8>,
    authority: Seq<u8>,
    now: i64,
    bump: u8,
) -> GroupModel {
    GroupModel {
        group_id,
        name,
        description,
        authority,
        proposals: Seq::empty(),
        members: Seq::empty(),
        created_at: now,
        bump,
    }
}

/// A new group with no proposals and no members.
pub fn new_group(
    group_id: Vec<u8>,
    name: Vec<u8>,
    description: Vec<u8>,
    authority: Address,
    now: i64,
    bump: u8,
) -> (r: Group)
    ensures
        r@ == fresh_group(group_id@, name@, description@, authority@, now, bump),
{
    let r = Group {
        group_id,
        name,
        description,
        authority,
        proposals: Vec::new(),
        members: Vec::new(),
        created_at: now,
        bump,
    };
    assert(r@.proposals =~= Seq::empty());
    assert(r@.members =~= Seq::empty());
    r
}

pub open spec fn has_member(members: Seq<GroupMemberModel>, who: Seq<u8>) -> bool {
    exists|i: int| 0 <= i < members.len() && #[trigger] members[i].pubkey == who
}

/// Adds `member` to the group, joined at `now`.
pub fn add_member(group: &mut Group, member: Address, now: i64) -> (r: Result<(), DaoError>)
    ensures
        has_member(old(group)@.members, member@) ==> r == Err::<(), DaoError>(DaoError::MemberAlreadyExists)
            && *final(group) == *old(group),
        !has_member(old(group)@.members, member@) ==> r is Ok && final(group)@ == (GroupModel {
            members: old(group)@.members.push(GroupMemberModel { pubkey: member@, joined_at: now }),
            ..old(group)@
        }),
{
    let mut i: usize = 0;
    while i < group.members.len()
        invariant
            i <= group@.members.len(),
            *group == *old(group),
            forall|j: int| 0 <= j < i ==> group@.members[j].pubkey != member@,
        decreases group@.members.len() - i,
    {
        if same_address(&group.members[i].pubkey, &member) {
            assert(group@.members[i as int].pubkey == member@);
            return Err(DaoError::MemberAlreadyExists);
        }
        i += 1;
    }
    let ghost before = group.members@;
    group.members.push(GroupMember { pubkey: member, joined_at: now });
    assert(models(group.members@) =~= models(before).push(
        GroupMemberModel { pubkey: member@, joined_at: now },
    ));
    Ok(())
}

/// The position of the first member with identity `who`.
pub open spec fn is_first_member(members: Seq<GroupMemberModel>, who: Seq<u8>, i: int) -> bool {
    &&& 0 <= i < members.len()
    &&& members[i].pubkey == who
    &&& forall|j: int| 0 <= j < i ==> members[j].pubkey != who
}

/// Removes the member with identity `member` from the group.
pub fn remove_member(group: &mut Group, member: &Address) -> (r: Result<(), DaoError>)
    ensures
        !has_member(old(group)@.members, member@) ==> r == Err::<(), DaoError>(DaoError::MemberNotFound)
            && *final(group) == *old(group),
        has_member(old(group)@.members, member@) ==> r is Ok && exists|i: int|
            is_first_member(old(group)@.members, member@, i) && final(group)@ == (GroupModel {
                members: old(group)@.members.remove(i),
                ..old(group)@
            }),
{
    let mut i: usize = 0;
    while i < group.members.len()
        invariant
            i <= group@.members.len(),
            *group == *old(group),
            forall|j: int| 0 <= j < i ==> group@.members[j].pubkey != member@,
        decreases group@.members.len() - i,
    {
        if same_address(&group.members[i].pubkey, member) {
            let ghost before = group.members@;
            group.members.remove(i);
            assert(models(group.members@) =~= models(before).remove(i as int));
            assert(is_first_member(old(group)@.members, member@, i as int));
            return Ok(());
        }
        i += 1;
    }
    Err(DaoError::MemberNotFound)
}

// ---- proposals ----

/// The first rule that a new proposal breaks, if any, at time `now`.
pub open spec fn proposal_check(
    proposal_id: Seq<u8>,
    title: Seq<u8>,
    description: Seq<u8>,
    choices: Seq<Seq<u8>>,
    voting_start: i64,
    voting_end: i64,
    now: i64,
) -> Option<DaoError> {
    if proposal_id.len() > MAX_PROPOSAL_ID_LEN {
        Some(DaoError::ProposalIdTooLong)
    } else if title.len() > MAX_TITLE_LEN {
        Some(DaoError::TitleTooLong)
    } else if description.len() > MAX_PROPOSAL_DESCRIPTION_LEN {
        Some(DaoError::DescriptionTooLong)
    } else if choices.len() < MIN_CHOICES || choices.len() > MAX_CHOICES {
        Some(DaoError::InvalidChoiceCount)
    } else if exists|i: int| 0 <= i < choices.len() && #[trigger] choices[i].len() == 0 {
        Some(DaoError::EmptyChoiceLabel)
    } else if voting_start >= voting_end {
        Some(DaoError::InvalidVotingPeriod)
    } else if voting_start <= now {
        Some(DaoError::VotingStartInPast)
    } else {
        None
    }
}

/// Whether some choice label is empty.
pub fn has_empty_label(choices: &Vec<Vec<u8>>) -> (r: bool)
    ensures
        r == exists|i: int| 0 <= i < choices.model().len() && #[trigger] choices.model()[i].len() == 0,
{
    let mut i: usize = 0;
    while i < choices.len()
        invariant
            i <= choices@.len(),
            forall|j: int| 0 <= j < i ==> choices.model()[j].len() != 0,
        decreases choices@.len() - i,
    {
        if choices[i].len() == 0 {
            assert(choices.model()[i as int].len() == 0);
            return true;
        }
        i += 1;
    }
    false
}

pub fn check_proposal(
    proposal_id: &Vec<u8>,
    title: &Vec<u8>,
    description: &Vec<u8>,
    choices: &Vec<Vec<u8>>,
    voting_start: i64,
    voting_end: i64,
    now: i64,
) -> (r: Result<(), DaoError>)
    ensures
        r == check_result(
            proposal_check(
                proposal_id@,
                title@,
                description@,
                choices.model(),
                voting_start,
                voting_end,
                now,
            ),
        ),
{
    if proposal_id.len() > MAX_PROPOSAL_ID_LEN {
        Err(DaoError::ProposalIdTooLong)
    } else if title.len() > MAX_TITLE_LEN {
        Err(DaoError::TitleTooLong)
    } else if description.len() > MAX_PROPOSAL_DESCRIPTION_LEN {
        Err(DaoError::DescriptionTooLong)
    } else if choices.len() < MIN_CHOICES || choices.len() > MAX_CHOICES {
        Err(DaoError::InvalidChoiceCount)
    } else if has_empty_label(choices) {
        Err(DaoError::EmptyChoiceLabel)
    } else if voting_start >= voting_end {
        Err(DaoError::InvalidVotingPeriod)
    } else if voting_start <= now {
        Err(DaoError::VotingStartInPast)
    } else {
        Ok(())
    }
}

pub open spec fn zeros(n: nat) -> Seq<u64> {
    Seq::new(n, |i: int| 0u64)
}

pub open spec fn fresh_proposal(
    proposal_id: Seq<u8>,
    group_id: Seq<u8>,
    title: Seq<u8>,
    description: Seq<u8>,
    choices: Seq<Seq<u8>>,
    voting_start: i64,
    voting_end: i64,
    token_mint: Option<Seq<u8>>,
    creator: Seq<u8>,
    now: i64,
    bump: u8,
) -> ProposalModel {
    ProposalModel {
        proposal_id,
        group_id,
        title,
        description,
        choices,
        choice_votes: zeros(choices.len()),
        voting_start,
        voting_end,
        token_mint,
        creator,
        voters: Seq::empty(),
        created_at: now,
        bump,
    }
}

/// A new proposal with every choice at zero votes and no voters.
pub fn new_proposal(
    proposal_id: Vec<u8>,
    group_id: Vec<u8>,
    title: Vec<u8>,
    description: Vec<u8>,
    choices: Vec<Vec<u8>>,
    voting_start: i64,
    voting_end: i64,
    token_mint: Option<Address>,
    creator: Address,
    now: i64,
    bump: u8,
) -> (r: Proposal)
    ensures
        r@ == fresh_proposal(
            proposal_id@,
            group_id@,
            title@,
            description@,
            choices.model(),
            voting_start,
            voting_end,
            token_mint.model(),
            creator@,
            now,
            bump,
        ),
{
    let mut choice_votes: Vec<u64> = Vec::new();
    let mut i: usize = 0;
    while i < choices.len()
        invariant
            i <= choices@.len(),
            models(choice_votes@) =~= zeros(i as nat),
        decreases choices@.len() - i,
    {
        let ghost before = choice_votes@;
        choice_votes.push(0u64);
        i += 1;
        assert(models(choice_votes@) =~= models(before).push(0u64));
    }
    let r = Proposal {
        proposal_id,
        group_id,
        title,
        description,
        choices,
        choice_votes,
        voting_start,
        voting_end,
        token_mint,
        creator,
        voters: Vec::new(),
        created_at: now,
        bump,
    };
    assert(r@.voters =~= Seq::empty());
    r
}

/// Where a proposal stands at time `now`.
#[derive(Clone, Copy, Debug, PartialEq, Eq, Structural)]
pub enum ProposalState {
    /// Voting has not begun.
    Scheduled,
    /// Voting is under way, both bounds included.
    Open,
    /// Voting has ended.
    Closed,
}

pub open spec fn state_at(voting_start: i64, voting_end: i64, now: i64) -> ProposalState {
    if now < voting_start {
        ProposalState::Scheduled
    } else if now <= voting_end {
        ProposalState::Open
    } else {
        ProposalState::Closed
    }
}

pub fn proposal_state(proposal: &Proposal, now: i64) -> (r: ProposalState)
    ensures
        r == state_at(proposal.voting_start, proposal.voting_end, now),
{
    if now < proposal.voting_start {
        ProposalState::Scheduled
    } else if now <= proposal.voting_end {
        ProposalState::Open
    } else {
        ProposalState::Closed
    }
}

pub open spec fn has_voted(voters: Seq<VoterInfoModel>, who: Seq<u8>) -> bool {
    exists|i: int| 0 <= i < voters.len() && #[trigger] voters[i].voter == who
}

/// The weight of a vote: one per identity without a weighting asset, the
/// voter's native balance under the native marker, and the placeholder one
/// for any other asset.
pub open spec fn weight_of(token_mint: Option<Seq<u8>>, voter_balance: u64) -> u64 {
    match token_mint {
        Some(mint) => if mint == native_mint() {
            voter_balance
        } else {
            1
        },
        None => 1,
    }
}

pub fn vote_weight(token_mint: &Option<Address>, voter_balance: u64) -> (r: u64)
    ensures
        r == weight_of(token_mint.model(), voter_balance),
{
    match token_mint {
        None => 1,
        Some(mint) => {
            let native = native_mint_address();
            if same_address(mint, &native) {
                voter_balance
            } else {
                1
            }
        },
    }
}

/// The weight that a vote would carry, or the first rule it breaks.
pub open spec fn vote_check(
    p: ProposalModel,
    voter: Seq<u8>,
    choice: u8,
    now: i64,
    voter_balance: u64,
) -> Result<u64, DaoError> {
    if now < p.voting_start || now > p.voting_end {
        Err(DaoError::VotingNotActive)
    } else if choice >= p.choices.len() || choice >= p.choice_votes.len() {
        Err(DaoError::InvalidChoice)
    } else if has_voted(p.voters, voter) {
        Err(DaoError::AlreadyVoted)
    } else {
        let w = weight_of(p.token_mint, voter_balance);
        if w == 0 {
            Err(DaoError::NoVotingPower)
        } else if p.choice_votes[choice as int] + w > u64::MAX {
            Err(DaoError::VoteCountOverflow)
        } else {
            Ok(w)
        }
    }
}

/// The proposal after a vote of `weight` for `choice`.
pub open spec fn voted(p: ProposalModel, voter: Seq<u8>, choice: u8, weight: u64, now: i64) -> ProposalModel {
    ProposalModel {
        choice_votes: p.choice_votes.update(
            choice as int,
            (p.choice_votes[choice as int] + weight) as u64,
        ),
        voters: p.voters.push(
            VoterInfoModel { voter, choice, vote_weight: weight, timestamp: now },
        ),
        ..p
    }
}

/// Casts `voter`'s vote for `choice` at time `now`: the choice's counter
/// gains the vote's weight and the voter is recorded, both or neither.
pub fn cast_vote(
    proposal: &mut Proposal,
    voter: Address,
    choice: u8,
    now: i64,
    voter_balance: u64,
) -> (r: Result<VoterInfo, DaoError>)
    ensures
        match vote_check(old(proposal)@, voter@, choice, now, voter_balance) {
            Ok(w) => {
                &&& r matches Ok(v) && v@ == (VoterInfoModel {
                    voter: voter@,
                    choice,
                    vote_weight: w,
                    timestamp: now,
                })
                &&& final(proposal)@ == voted(old(proposal)@, voter@, choice, w, now)
            },
            Err(e) => r == Err::<VoterInfo, DaoError>(e) && *final(proposal) == *old(proposal),
        },
{
    if now < proposal.voting_start || now > proposal.voting_end {
        return Err(DaoError::VotingNotActive);
    }
    let c = choice as usize;
    if c >= proposal.choices.len() || c >= proposal.choice_votes.len() {
        return Err(DaoError::InvalidChoice);
    }
    let mut i: usize = 0;
    while i < proposal.voters.len()
        invariant
            i <= proposal@.voters.len(),
            *proposal == *old(proposal),
            c == choice as usize,
            c < proposal@.choices.len(),
            c < proposal@.choice_votes.len(),
            proposal.voting_start <= now <= proposal.voting_end,
            forall|j: int| 0 <= j < i ==> proposal@.voters[j].voter != voter@,
        decreases proposal@.voters.len() - i,
    {
        if same_address(&proposal.voters[i].voter, &voter) {
            assert(proposal@.voters[i as int].voter == voter@);
            return Err(DaoError::AlreadyVoted);
        }
        i += 1;
    }
    let weight = vote_weight(&proposal.token_mint, voter_balance);
    if weight == 0 {
        return Err(DaoError::NoVotingPower);
    }
    let current = proposal.choice_votes[c];
    if current > u64::MAX - weight {
        return Err(DaoError::VoteCountOverflow);
    }
    let ghost old_votes = proposal.choice_votes@;
    let ghost old_voters = proposal.voters@;
    proposal.choice_votes[c] = current + weight;
    let record = VoterInfo { voter, choice, vote_weight: weight, timestamp: now };
    proposal.voters.push(record);
    proof {
        assert(models(proposal.choice_votes@) =~= models(old_votes).update(
            c as int,
            (current + weight) as u64,
        ));
        assert(models(proposal.voters@) =~= models(old_voters).push(record@));
    }
    Ok(record)
}


// ---- tally and the laws of voting ----

pub open spec fn sum_votes(s: Seq<u64>) -> int
    decreases s.len(),
{
    if s.len() == 0 {
        0
    } else {
        sum_votes(s.drop_last()) + s.last()
    }
}

pub open spec fn sum_weights(v: Seq<VoterInfoModel>) -> int
    decreases v.len(),
{
    if v.len() == 0 {
        0
    } else {
        sum_weights(v.drop_last()) + v.last().vote_weight
    }
}

/// The per-choice totals, their sum, the number of voters, and whether
/// voting has ended.
#[derive(Clone, Debug, PartialEq, Eq)]
pub struct Tally {
    pub choice_votes: Vec<u64>,
    pub total_votes: u128,
    pub total_voters: usize,
    pub is_closed: bool,
}

/// Reads the results of a proposal at time `now`; nothing changes.
pub fn tally(proposal: &Proposal, now: i64) -> (r: Tally)
    ensures
        r.choice_votes@ == proposal@.choice_votes,
        r.total_votes == sum_votes(proposal@.choice_votes),
        r.total_voters == proposal@.voters.len(),
        r.is_closed == (now > proposal.voting_end),
{
    let ghost s = proposal@.choice_votes;
    let mut copy: Vec<u64> = Vec::new();
    let mut total: u128 = 0;
    let mut i: usize = 0;
    while i < proposal.choice_votes.len()
        invariant
            s == proposal@.choice_votes,
            s.len() == proposal.choice_votes@.len(),
            i <= s.len(),
            copy@ =~= s.take(i as int),
            total == sum_votes(s.take(i as int)),
            total <= i * 0xffff_ffff_ffff_ffffu128,
        decreases s.len() - i,
    {
        let v = proposal.choice_votes[i];
        copy.push(v);
        assert(s.take(i + 1).drop_last() =~= s.take(i as int));
        total = total + v as u128;
        i += 1;
        assert(copy@ =~= s.take(i as int));
    }
    assert(s.take(s.len() as int) =~= s);
    Tally {
        choice_votes: copy,
        total_votes: total,
        total_voters: proposal.voters.len(),
        is_closed: now > proposal.voting_end,
    }
}

/// What every proposal keeps through any run of votes: one counter per
/// choice, every recorded choice in range, each identity recorded at most
/// once, and the counters summing to the recorded weights.
pub open spec fn votes_consistent(p: ProposalModel) -> bool {
    &&& p.choice_votes.len() == p.choices.len()
    &&& forall|i: int| 0 <= i < p.voters.len() ==> (#[trigger] p.voters[i]).choice < p.choices.len()
    &&& forall|i: int, j: int|
        0 <= i < j < p.voters.len() ==> (#[trigger] p.voters[i]).voter != (#[trigger] p.voters[j]).voter
    &&& sum_votes(p.choice_votes) == sum_weights(p.voters)
}

proof fn lemma_sum_update(s: Seq<u64>, i: int, v: u64)
    requires
        0 <= i < s.len(),
    ensures
        sum_votes(s.update(i, v)) == sum_votes(s) - s[i] + v,
    decreases s.len(),
{
    if i == s.len() - 1 {
        assert(s.update(i, v).drop_last() =~= s.drop_last());
    } else {
        lemma_sum_update(s.drop_last(), i, v);
        assert(s.update(i, v).drop_last() =~= s.drop_last().update(i, v));
    }
}

proof fn lemma_sum_zeros(n: nat)
    ensures
        sum_votes(zeros(n)) == 0,
    decreases n,
{
    if n > 0 {
        assert(zeros(n).drop_last() =~= zeros((n - 1) as nat));
        lemma_sum_zeros((n - 1) as nat);
    }
}

/// A new proposal starts consistent: zero on every choice and no voters.
pub proof fn lemma_fresh_proposal_consistent(
    proposal_id: Seq<u8>,
    group_id: Seq<u8>,
    title: Seq<u8>,
    description: Seq<u8>,
    choices: Seq<Seq<u8>>,
    voting_start: i64,
    voting_end: i64,
    token_mint: Option<Seq<u8>>,
    creator: Seq<u8>,
    now: i64,
    bump: u8,
)
    ensures
        votes_consistent(
            fresh_proposal(
                proposal_id,
                group_id,
                title,
                description,
                choices,
                voting_start,
                voting_end,
                token_mint,
                creator,
                now,
                bump,
            ),
        ),
{
    lemma_sum_zeros(choices.len());
}

/// One request to vote, as plain values.
pub struct VoteEvent {
    pub voter: Seq<u8>,
    pub choice: u8,
    pub now: i64,
    pub voter_balance: u64,
}

/// The proposal after one request: changed if the vote is accepted, the
/// same otherwise.
pub open spec fn after_vote(p: ProposalModel, e: VoteEvent) -> ProposalModel {
    match vote_check(p, e.voter, e.choice, e.now, e.voter_balance) {
        Ok(w) => voted(p, e.voter, e.choice, w, e.now),
        Err(_) => p,
    }
}

/// The proposal after a run of requests, in order.
pub open spec fn after_votes(p: ProposalModel, es: Seq<VoteEvent>) -> ProposalModel
    decreases es.len(),
{
    if es.len() == 0 {
        p
    } else {
        after_vote(after_votes(p, es.drop_last()), es.last())
    }
}

/// One accepted vote keeps a proposal consistent, and a vote outside the
/// voting window is refused as not active.
pub proof fn lemma_vote_step(p: ProposalModel, e: VoteEvent)
    requires
        votes_consistent(p),
    ensures
        votes_consistent(after_vote(p, e)),
        after_vote(p, e).voting_start == p.voting_start,
        after_vote(p, e).voting_end == p.voting_end,
        e.now < p.voting_start || e.now > p.voting_end ==> vote_check(
            p,
            e.voter,
            e.choice,
            e.now,
            e.voter_balance) == Err::<u64, DaoError>(DaoError::VotingNotActive),
{
    if let Ok(w) = vote_check(p, e.voter, e.choice, e.now, e.voter_balance) {
        let q = voted(p, e.voter, e.choice, w, e.now);
        let c = e.choice as int;
        lemma_sum_update(p.choice_votes, c, (p.choice_votes[c] + w) as u64);
        assert(q.voters.drop_last() =~= p.voters);
        assert forall|i: int, j: int| 0 <= i < j < q.voters.len() implies (#[trigger] q.voters[i]).voter
            != (#[trigger] q.voters[j]).voter by {
            if j == p.voters.len() {
                assert(q.voters[i] == p.voters[i]);
                if p.voters[i].voter == e.voter {
                    assert(has_voted(p.voters, e.voter));
                }
            } else {
                assert(q.voters[i] == p.voters[i] && q.voters[j] == p.voters[j]);
            }
        }
        assert forall|i: int| 0 <= i < q.voters.len() implies (#[trigger] q.voters[i]).choice
            < q.choices.len() by {
            if i < p.voters.len() {
                assert(q.voters[i] == p.voters[i]);
            }
        }
    }
}

/// The sum law on its own: if the counters sum to the recorded weights
/// before a request, they still do after it; an accepted vote grows both
/// sides by exactly its weight.
pub proof fn lemma_vote_keeps_sums(p: ProposalModel, e: VoteEvent)
    requires
        sum_votes(p.choice_votes) == sum_weights(p.voters),
    ensures
        sum_votes(after_vote(p, e).choice_votes) == sum_weights(after_vote(p, e).voters),
        vote_check(p, e.voter, e.choice, e.now, e.voter_balance) matches Ok(w) ==> {
            &&& sum_votes(after_vote(p, e).choice_votes) == sum_votes(p.choice_votes) + w
            &&& sum_weights(after_vote(p, e).voters) == sum_weights(p.voters) + w
        },
{
    if let Ok(w) = vote_check(p, e.voter, e.choice, e.now, e.voter_balance) {
        let q = voted(p, e.voter, e.choice, w, e.now);
        let c = e.choice as int;
        lemma_sum_update(p.choice_votes, c, (p.choice_votes[c] + w) as u64);
        assert(q.voters.drop_last() =~= p.voters);
    }
}

/// Voting laws: through any run of requests on one proposal, each identity
/// stays recorded at most once, the counters keep summing to the recorded
/// weights, and the voting window never moves, so a request outside it is
/// always refused as not active.
pub proof fn lemma_votes_consistent(p: ProposalModel, es: Seq<VoteEvent>)
    requires
        votes_consistent(p),
    ensures
        votes_consistent(after_votes(p, es)),
        after_votes(p, es).voting_start == p.voting_start,
        after_votes(p, es).voting_end == p.voting_end,
        forall|e: VoteEvent|
            e.now < p.voting_start || e.now > p.voting_end ==> #[trigger] vote_check(
                after_votes(p, es),
                e.voter,
                e.choice,
                e.now,
                e.voter_balance) == Err::<u64, DaoError>(DaoError::VotingNotActive),
    decreases es.len(),
{
    if es.len() > 0 {
        lemma_votes_consistent(p, es.drop_last());
        lemma_vote_step(after_votes(p, es.drop_last()), es.last());
    }
}

} // verus!
