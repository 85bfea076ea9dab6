//! The four record kinds of the ledger and the summaries they hold, with
//! their meaning as plain values and their binary form (fields in order).
use crate::address::Address;
use crate::wire::Wire;
use vstd::prelude::*;

verus! {

/// One entry of the registry's list of groups.
#[derive(Clone, Debug, PartialEq, Eq)]
pub struct GroupInfo {
    pub group_id: Vec<u8>,
    pub authority: Address,
    pub pubkey: Address,
}

/// What a [`GroupInfo`] holds, as plain values.
pub struct GroupInfoModel {
    pub group_id: Seq<u8>,
    pub authority: Seq<u8>,
    pub pubkey: Seq<u8>,
}

impl View for GroupInfo {
    type V = GroupInfoModel;

    open spec fn view(&self) -> GroupInfoModel {
        GroupInfoModel {
            group_id: self.group_id.model(),
            authority: self.authority.model(),
            pubkey: self.pubkey.model(),
        }
    }
}

impl GroupInfo {
    /// The fields of `m` in written order.
    pub open spec fn fields(m: GroupInfoModel) -> <((Vec<u8>, Address), Address) as Wire>::Model {
        ((m.group_id, m.authority), m.pubkey)
    }
}

impl Wire for GroupInfo {
    type Model = GroupInfoModel;

    open spec fn model(&self) -> GroupInfoModel {
        self@
    }

    open spec fn fits(m: GroupInfoModel) -> bool {
        &&& <Vec<u8> as Wire>::fits(m.group_id)
        &&& <Address as Wire>::fits(m.authority)
        &&& <Address as Wire>::fits(m.pubkey)
    }

    open spec fn wire(m: GroupInfoModel) -> Seq<u8> {
        <((Vec<u8>, Address), Address) as Wire>::wire(Self::fields(m))
    }

    proof fn lemma_wire_unique(m1: GroupInfoModel, m2: GroupInfoModel, buf: Seq<u8>, pos: int) {
        <((Vec<u8>, Address), Address) as Wire>::lemma_wire_unique(Self::fields(m1), Self::fields(m2), buf, pos);
    }

    fn fits_check(&self) -> (r: bool) {
        self.group_id.fits_check() && self.authority.fits_check() && self.pubkey.fits_check()
    }

    fn write_to(&self, out: &mut Vec<u8>) {
        self.group_id.write_to(out);
        self.authority.write_to(out);
        self.pubkey.write_to(out);
        assert(out@ =~= old(out)@ + Self::wire(self@));
    }

    fn read_from(buf: &[u8], pos: usize) -> (r: Option<(GroupInfo, usize)>) {
        match <((Vec<u8>, Address), Address) as Wire>::read_from(buf, pos) {
            Some((((group_id, authority), pubkey), end)) => Some((GroupInfo { group_id, authority, pubkey }, end)),
            None => None,
        }
    }
}

/// One entry of a group's list of proposals.
#[derive(Clone, Debug, PartialEq, Eq)]
pub struct ProposalInfo {
    pub proposal_id: Vec<u8>,
    pub pubkey: Address,
    pub created_at: i64,
}

/// What a [`ProposalInfo`] holds, as plain values.
pub struct ProposalInfoModel {
    pub proposal_id: Seq<u8>,
    pub pubkey: Seq<u8>,
    pub created_at: i64,
}

impl View for ProposalInfo {
    type V = ProposalInfoModel;

    open spec fn view(&self) -> ProposalInfoModel {
        ProposalInfoModel {
            proposal_id: self.proposal_id.model(),
            pubkey: self.pubkey.model(),
            created_at: self.created_at.model(),
        }
    }
}

impl ProposalInfo {
    /// The fields of `m` in written order.
    pub open spec fn fields(m: ProposalInfoModel) -> <((Vec<u8>, Address), i64) as Wire>::Model {
        ((m.proposal_id, m.pubkey), m.created_at)
    }
}

impl Wire for ProposalInfo {
    type Model = ProposalInfoModel;

    open spec fn model(&self) -> ProposalInfoModel {
        self@
    }

    open spec fn fits(m: ProposalInfoModel) -> bool {
        &&& <Vec<u8> as Wire>::fits(m.proposal_id)
        &&& <Address as Wire>::fits(m.pubkey)
        &&& <i64 as Wire>::fits(m.created_at)
    }

    open spec fn wire(m: ProposalInfoModel) -> Seq<u8> {
        <((Vec<u8>, Address), i64) as Wire>::wire(Self::fields(m))
    }

    proof fn lemma_wire_unique(m1: ProposalInfoModel, m2: ProposalInfoModel, buf: Seq<u8>, pos: int) {
        <((Vec<u8>, Address), i64) as Wire>::lemma_wire_unique(Self::fields(m1), Self::fields(m2), buf, pos);
    }

    fn fits_check(&self) -> (r: bool) {
        self.proposal_id.fits_check() && self.pubkey.fits_check() && self.created_at.fits_check()
    }

    fn write_to(&self, out: &mut Vec<u8>) {
        self.proposal_id.write_to(out);
        self.pubkey.write_to(out);
        self.created_at.write_to(out);
        assert(out@ =~= old(out)@ + Self::wire(self@));
    }

    fn read_from(buf: &[u8], pos: usize) -> (r: Option<(ProposalInfo, usize)>) {
        match <((Vec<u8>, Address), i64) as Wire>::read_from(buf, pos) {
            Some((((proposal_id, pubkey), created_at), end)) => Some((ProposalInfo { proposal_id, pubkey, created_at }, end)),
            None => None,
        }
    }
}

/// A member of a group and when it joined.
#[derive(Clone, Copy, Debug, PartialEq, Eq)]
pub struct GroupMember {
    pub pubkey: Address,
    pub joined_at: i64,
}

/// What a [`GroupMember`] holds, as plain values.
pub struct GroupMemberModel {
    pub pubkey: Seq<u8>,
    pub joined_at: i64,
}

impl View for GroupMember {
    type V = GroupMemberModel;

    open spec fn view(&self) -> GroupMemberModel {
        GroupMemberModel {
            pubkey: self.pubkey.model(),
            joined_at: self.joined_at.model(),
        }
    }
}

impl GroupMember {
    /// The fields of `m` in written order.
    pub open spec fn fields(m: GroupMemberModel) -> <(Address, i64) as Wire>::Model {
        (m.pubkey, m.joined_at)
    }
}

impl Wire for GroupMember {
    type Model = GroupMemberModel;

    open spec fn model(&self) -> GroupMemberModel {
        self@
    }

    open spec fn fits(m: GroupMemberModel) -> bool {
        &&& <Address as Wire>::fits(m.pubkey)
        &&& <i64 as Wire>::fits(m.joined_at)
    }

    open spec fn wire(m: GroupMemberModel) -> Seq<u8> {
        <(Address, i64) as Wire>::wire(Self::fields(m))
    }

    proof fn lemma_wire_unique(m1: GroupMemberModel, m2: GroupMemberModel, buf: Seq<u8>, pos: int) {
        <(Address, i64) as Wire>::lemma_wire_unique(Self::fields(m1), Self::fields(m2), buf, pos);
    }

    fn fits_check(&self) -> (r: bool) {
        self.pubkey.fits_check() && self.joined_at.fits_check()
    }

    fn write_to(&self, out: &mut Vec<u8>) {
        self.pubkey.write_to(out);
        self.joined_at.write_to(out);
        assert(out@ =~= old(out)@ + Self::wire(self@));
    }

    fn read_from(buf: &[u8], pos: usize) -> (r: Option<(GroupMember, usize)>) {
        match <(Address, i64) as Wire>::read_from(buf, pos) {
            Some(((pubkey, joined_at), end)) => Some((GroupMember { pubkey, joined_at }, end)),
            None => None,
        }
    }
}

/// One cast vote: who, for which choice, with what weight, and when.
#[derive(Clone, Copy, Debug, PartialEq, Eq)]
pub struct VoterInfo {
    pub voter: Address,
    pub choice: u8,
    pub vote_weight: u64,
    pub timestamp: i64,
}

/// What a [`VoterInfo`] holds, as plain values.
pub struct VoterInfoModel {
    pub voter: Seq<u8>,
    pub choice: u8,
    pub vote_weight: u64,
    pub timestamp: i64,
}

impl View for VoterInfo {
    type V = VoterInfoModel;

    open spec fn view(&self) -> VoterInfoModel {
        VoterInfoModel {
            voter: self.voter.model(),
            choice: self.choice.model(),
            vote_weight: self.vote_weight.model(),
            timestamp: self.timestamp.model(),
        }
    }
}

impl VoterInfo {
    /// The fields of `m` in written order.
    pub open spec fn fields(m: VoterInfoModel) -> <(((Address, u8), u64), i64) as Wire>::Model {
        (((m.voter, m.choice), m.vote_weight), m.timestamp)
    }
}

impl Wire for VoterInfo {
    type Model = VoterInfoModel;

    open spec fn model(&self) -> VoterInfoModel {
        self@
    }

    open spec fn fits(m: VoterInfoModel) -> bool {
        &&& <Address as Wire>::fits(m.voter)
        &&& <u8 as Wire>::fits(m.choice)
        &&& <u64 as Wire>::fits(m.vote_weight)
        &&& <i64 as Wire>::fits(m.timestamp)
    }

    open spec fn wire(m: VoterInfoModel) -> Seq<u8> {
        <(((Address, u8), u64), i64) as Wire>::wire(Self::fields(m))
    }

    proof fn lemma_wire_unique(m1: VoterInfoModel, m2: VoterInfoModel, buf: Seq<u8>, pos: int) {
        <(((Address, u8), u64), i64) as Wire>::lemma_wire_unique(Self::fields(m1), Self::fields(m2), buf, pos);
    }

    fn fits_check(&self) -> (r: bool) {
        self.voter.fits_check() && self.choice.fits_check() && self.vote_weight.fits_check() && self.timestamp.fits_check()
    }

    fn write_to(&self, out: &mut Vec<u8>) {
        self.voter.write_to(out);
        self.choice.write_to(out);
        self.vote_weight.write_to(out);
        self.timestamp.write_to(out);
        assert(out@ =~= old(out)@ + Self::wire(self@));
    }

    fn read_from(buf: &[u8], pos: usize) -> (r: Option<(VoterInfo, usize)>) {
        match <(((Address, u8), u64), i64) as Wire>::read_from(buf, pos) {
            Some(((((voter, choice), vote_weight), timestamp), end)) => Some((VoterInfo { voter, choice, vote_weight, timestamp }, end)),
            None => None,
        }
    }
}

/// The single registry of all groups.
#[derive(Clone, Debug, PartialEq, Eq)]
pub struct DaoRegistry {
    pub authority: Address,
    pub groups: Vec<GroupInfo>,
    pub bump: u8,
}

/// What a [`DaoRegistry`] holds, as plain values.
pub struct DaoRegistryModel {
    pub authority: Seq<u8>,
    pub groups: Seq<GroupInfoModel>,
    pub bump: u8,
}

impl View for DaoRegistry {
    type V = DaoRegistryModel;

    open spec fn view(&self) -> DaoRegistryModel {
        DaoRegistryModel {
            authority: self.authority.model(),
            groups: self.groups.model(),
            bump: self.bump.model(),
        }
    }
}

impl DaoRegistry {
    /// The fields of `m` in written order.
    pub open spec fn fields(m: DaoRegistryModel) -> <((Address, Vec<GroupInfo>), u8) as Wire>::Model {
        ((m.authority, m.groups), m.bump)
    }
}

impl Wire for DaoRegistry {
    type Model = DaoRegistryModel;

    open spec fn model(&self) -> DaoRegistryModel {
        self@
    }

    open spec fn fits(m: DaoRegistryModel) -> bool {
        &&& <Address as Wire>::fits(m.authority)
        &&& <Vec<GroupInfo> as Wire>::fits(m.groups)
        &&& <u8 as Wire>::fits(m.bump)
    }

    open spec fn wire(m: DaoRegistryModel) -> Seq<u8> {
        <((Address, Vec<GroupInfo>), u8) as Wire>::wire(Self::fields(m))
    }

    proof fn lemma_wire_unique(m1: DaoRegistryModel, m2: DaoRegistryModel, buf: Seq<u8>, pos: int) {
        <((Address, Vec<GroupInfo>), u8) as Wire>::lemma_wire_unique(Self::fields(m1), Self::fields(m2), buf, pos);
    }

    fn fits_check(&self) -> (r: bool) {
        self.authority.fits_check() && self.groups.fits_check() && self.bump.fits_check()
    }

    fn write_to(&self, out: &mut Vec<u8>) {
        self.authority.write_to(out);
        self.groups.write_to(out);
        self.bump.write_to(out);
        assert(out@ =~= old(out)@ + Self::wire(self@));
    }

    fn read_from(buf: &[u8], pos: usize) -> (r: Option<(DaoRegistry, usize)>) {
        match <((Address, Vec<GroupInfo>), u8) as Wire>::read_from(buf, pos) {
            Some((((authority, groups), bump), end)) => Some((DaoRegistry { authority, groups, bump }, end)),
            None => None,
        }
    }
}

/// A group: its texts, owner, proposals and members.
#[derive(Clone, Debug, PartialEq, Eq)]
pub struct Group {
    pub group_id: Vec<u8>,
    pub name: Vec<u8>,
    pub description: Vec<u8>,
    pub authority: Address,
    pub proposals: Vec<ProposalInfo>,
    pub members: Vec<GroupMember>,
    pub created_at: i64,
    pub bump: u8,
}

/// What a [`Group`] holds, as plain values.
pub struct GroupModel {
    pub group_id: Seq<u8>,
    pub name: Seq<u8>,
    pub description: Seq<u8>,
    pub authority: Seq<u8>,
    pub proposals: Seq<ProposalInfoModel>,
    pub members: Seq<GroupMemberModel>,
    pub created_at: i64,
    pub bump: u8,
}

impl View for Group {
    type V = GroupModel;

    open spec fn view(&self) -> GroupModel {
        GroupModel {
            group_id: self.group_id.model(),
            name: self.name.model(),
            description: self.description.model(),
            authority: self.authority.model(),
            proposals: self.proposals.model(),
            members: self.members.model(),
            created_at: self.created_at.model(),
            bump: self.bump.model(),
        }
    }
}

impl Group {
    /// The fields of `m` in written order.
    pub open spec fn fields(m: GroupModel) -> <(((((((Vec<u8>, Vec<u8>), Vec<u8>), Address), Vec<ProposalInfo>), Vec<GroupMember>), i64), u8) as Wire>::Model {
        (((((((m.group_id, m.name), m.description), m.authority), m.proposals), m.members), m.created_at), m.bump)
    }
}

impl Wire for Group {
    type Model = GroupModel;

    open spec fn model(&self) -> GroupModel {
        self@
    }

    open spec fn fits(m: GroupModel) -> bool {
        &&& <Vec<u8> as Wire>::fits(m.group_id)
        &&& <Vec<u8> as Wire>::fits(m.name)
        &&& <Vec<u8> as Wire>::fits(m.description)
        &&& <Address as Wire>::fits(m.authority)
        &&& <Vec<ProposalInfo> as Wire>::fits(m.proposals)
        &&& <Vec<GroupMember> as Wire>::fits(m.members)
        &&& <i64 as Wire>::fits(m.created_at)
        &&& <u8 as Wire>::fits(m.bump)
    }

    open spec fn wire(m: GroupModel) -> Seq<u8> {
        <(((((((Vec<u8>, Vec<u8>), Vec<u8>), Address), Vec<ProposalInfo>), Vec<GroupMember>), i64), u8) as Wire>::wire(Self::fields(m))
    }

    proof fn lemma_wire_unique(m1: GroupModel, m2: GroupModel, buf: Seq<u8>, pos: int) {
        <(((((((Vec<u8>, Vec<u8>), Vec<u8>), Address), Vec<ProposalInfo>), Vec<GroupMember>), i64), u8) as Wire>::lemma_wire_unique(Self::fields(m1), Self::fields(m2), buf, pos);
    }

    fn fits_check(&self) -> (r: bool) {
        self.group_id.fits_check() && self.name.fits_check() && self.description.fits_check() && self.authority.fits_check() && self.proposals.fits_check() && self.members.fits_check() && self.created_at.fits_check() && self.bump.fits_check()
    }

    fn write_to(&self, out: &mut Vec<u8>) {
        self.group_id.write_to(out);
        self.name.write_to(out);
        self.description.write_to(out);
        self.authority.write_to(out);
        self.proposals.write_to(out);
        self.members.write_to(out);
        self.created_at.write_to(out);
        self.bump.write_to(out);
        assert(out@ =~= old(out)@ + Self::wire(self@));
    }

    fn read_from(buf: &[u8], pos: usize) -> (r: Option<(Group, usize)>) {
        match <(((((((Vec<u8>, Vec<u8>), Vec<u8>), Address), Vec<ProposalInfo>), Vec<GroupMember>), i64), u8) as Wire>::read_from(buf, pos) {
            Some(((((((((group_id, name), description), authority), proposals), members), created_at), bump), end)) => Some((Group { group_id, name, description, authority, proposals, members, created_at, bump }, end)),
            None => None,
        }
    }
}

/// A proposal of a group, with its choices, voting window and votes.
#[derive(Clone, Debug, PartialEq, Eq)]
pub struct Proposal {
    pub proposal_id: Vec<u8>,
    pub group_id: Vec<u8>,
    pub title: Vec<u8>,
    pub description: Vec<u8>,
    pub choices: Vec<Vec<u8>>,
    pub choice_votes: Vec<u64>,
    pub voting_start: i64,
    pub voting_end: i64,
    pub token_mint: Option<Address>,
    pub creator: Address,
    pub voters: Vec<VoterInfo>,
    pub created_at: i64,
    pub bump: u8,
}

/// What a [`Proposal`] holds, as plain values.
pub struct ProposalModel {
    pub proposal_id: Seq<u8>,
    pub group_id: Seq<u8>,
    pub title: Seq<u8>,
    pub description: Seq<u8>,
    pub choices: Seq<Seq<u8>>,
    pub choice_votes: Seq<u64>,
    pub voting_start: i64,
    pub voting_end: i64,
    pub token_mint: Option<Seq<u8>>,
    pub creator: Seq<u8>,
    pub voters: Seq<VoterInfoModel>,
    pub created_at: i64,
    pub bump: u8,
}

impl View for Proposal {
    type V = ProposalModel;

    open spec fn view(&self) -> ProposalModel {
        ProposalModel {
            proposal_id: self.proposal_id.model(),
            group_id: self.group_id.model(),
            title: self.title.model(),
            description: self.description.model(),
            choices: self.choices.model(),
            choice_votes: self.choice_votes.model(),
            voting_start: self.voting_start.model(),
            voting_end: self.voting_end.model(),
            token_mint: self.token_mint.model(),
            creator: self.creator.model(),
            voters: self.voters.model(),
            created_at: self.created_at.model(),
            bump: self.bump.model(),
        }
    }
}

impl Proposal {
    /// The fields of `m` in written order.
    pub open spec fn fields(m: ProposalModel) -> <((((((((((((Vec<u8>, Vec<u8>), Vec<u8>), Vec<u8>), Vec<Vec<u8>>), Vec<u64>), i64), i64), Option<Address>), Address), Vec<VoterInfo>), i64), u8) as Wire>::Model {
        ((((((((((((m.proposal_id, m.group_id), m.title), m.description), m.choices), m.choice_votes), m.voting_start), m.voting_end), m.token_mint), m.creator), m.voters), m.created_at), m.bump)
    }
}

impl Wire for Proposal {
    type Model = ProposalModel;

    open spec fn model(&self) -> ProposalModel {
        self@
    }

    open spec fn fits(m: ProposalModel) -> bool {
        &&& <Vec<u8> as Wire>::fits(m.proposal_id)
        &&& <Vec<u8> as Wire>::fits(m.group_id)
        &&& <Vec<u8> as Wire>::fits(m.title)
        &&& <Vec<u8> as Wire>::fits(m.description)
        &&& <Vec<Vec<u8>> as Wire>::fits(m.choices)
        &&& <Vec<u64> as Wire>::fits(m.choice_votes)
        &&& <i64 as Wire>::fits(m.voting_start)
        &&& <i64 as Wire>::fits(m.voting_end)
        &&& <Option<Address> as Wire>::fits(m.token_mint)
        &&& <Address as Wire>::fits(m.creator)
        &&& <Vec<VoterInfo> as Wire>::fits(m.voters)
        &&& <i64 as Wire>::fits(m.created_at)
        &&& <u8 as Wire>::fits(m.bump)
    }

    open spec fn wire(m: ProposalModel) -> Seq<u8> {
        <((((((((((((Vec<u8>, Vec<u8>), Vec<u8>), Vec<u8>), Vec<Vec<u8>>), Vec<u64>), i64), i64), Option<Address>), Address), Vec<VoterInfo>), i64), u8) as Wire>::wire(Self::fields(m))
    }

    proof fn lemma_wire_unique(m1: ProposalModel, m2: ProposalModel, buf: Seq<u8>, pos: int) {
        <((((((((((((Vec<u8>, Vec<u8>), Vec<u8>), Vec<u8>), Vec<Vec<u8>>), Vec<u64>), i64), i64), Option<Address>), Address), Vec<VoterInfo>), i64), u8) as Wire>::lemma_wire_unique(Self::fields(m1), Self::fields(m2), buf, pos);
    }

    fn fits_check(&self) -> (r: bool) {
        self.proposal_id.fits_check() && self.group_id.fits_check() && self.title.fits_check() && self.description.fits_check() && self.choices.fits_check() && self.choice_votes.fits_check() && self.voting_start.fits_check() && self.voting_end.fits_check() && self.token_mint.fits_check() && self.creator.fits_check() && self.voters.fits_check() && self.created_at.fits_check() && self.bump.fits_check()
    }

    #[verifier::rlimit(50)]
    fn write_to(&self, out: &mut Vec<u8>) {
        self.proposal_id.write_to(out);
        self.group_id.write_to(out);
        self.title.write_to(out);
        self.description.write_to(out);
        self.choices.write_to(out);
        self.choice_votes.write_to(out);
        self.voting_start.write_to(out);
        self.voting_end.write_to(out);
        self.token_mint.write_to(out);
        self.creator.write_to(out);
        self.voters.write_to(out);
        self.created_at.write_to(out);
        self.bump.write_to(out);
        assert(out@ =~= old(out)@ + Self::wire(self@));
    }

    fn read_from(buf: &[u8], pos: usize) -> (r: Option<(Proposal, usize)>) {
        match <((((((((((((Vec<u8>, Vec<u8>), Vec<u8>), Vec<u8>), Vec<Vec<u8>>), Vec<u64>), i64), i64), Option<Address>), Address), Vec<VoterInfo>), i64), u8) as Wire>::read_from(buf, pos) {
            Some((((((((((((((proposal_id, group_id), title), description), choices), choice_votes), voting_start), voting_end), token_mint), creator), voters), created_at), bump), end)) => Some((Proposal { proposal_id, group_id, title, description, choices, choice_votes, voting_start, voting_end, token_mint, creator, voters, created_at, bump }, end)),
            None => None,
        }
    }
}

/// The identity record of an outside user handle.
#[derive(Clone, Debug, PartialEq, Eq)]
pub struct UserAccount {
    pub telegram_id: i64,
    pub wallet_pubkey: Address,
    pub created_at: i64,
    pub bump: u8,
}

/// What a [`UserAccount`] holds, as plain values.
pub struct UserAccountModel {
    pub telegram_id: i64,
    pub wallet_pubkey: Seq<u8>,
    pub created_at: i64,
    pub bump: u8,
}

impl View for UserAccount {
    type V = UserAccountModel;

    open spec fn view(&self) -> UserAccountModel {
        UserAccountModel {
            telegram_id: self.telegram_id.model(),
            wallet_pubkey: self.wallet_pubkey.model(),
            created_at: self.created_at.model(),
            bump: self.bump.model(),
        }
    }
}

impl UserAccount {
    /// The fields of `m` in written order.
    pub open spec fn fields(m: UserAccountModel) -> <(((i64, Address), i64), u8) as Wire>::Model {
        (((m.telegram_id, m.wallet_pubkey), m.created_at), m.bump)
    }
}

impl Wire for UserAccount {
    type Model = UserAccountModel;

    open spec fn model(&self) -> UserAccountModel {
        self@
    }

    open spec fn fits(m: UserAccountModel) -> bool {
        &&& <i64 as Wire>::fits(m.telegram_id)
        &&& <Address as Wire>::fits(m.wallet_pubkey)
        &&& <i64 as Wire>::fits(m.created_at)
        &&& <u8 as Wire>::fits(m.bump)
    }

    open spec fn wire(m: UserAccountModel) -> Seq<u8> {
        <(((i64, Address), i64), u8) as Wire>::wire(Self::fields(m))
    }

    proof fn lemma_wire_unique(m1: UserAccountModel, m2: UserAccountModel, buf: Seq<u8>, pos: int) {
        <(((i64, Address), i64), u8) as Wire>::lemma_wire_unique(Self::fields(m1), Self::fields(m2), buf, pos);
    }

    fn fits_check(&self) -> (r: bool) {
        self.telegram_id.fits_check() && self.wallet_pubkey.fits_check() && self.created_at.fits_check() && self.bump.fits_check()
    }

    fn write_to(&self, out: &mut Vec<u8>) {
        self.telegram_id.write_to(out);
        self.wallet_pubkey.write_to(out);
        self.created_at.write_to(out);
        self.bump.write_to(out);
        assert(out@ =~= old(out)@ + Self::wire(self@));
    }

    fn read_from(buf: &[u8], pos: usize) -> (r: Option<(UserAccount, usize)>) {
        match <(((i64, Address), i64), u8) as Wire>::read_from(buf, pos) {
            Some(((((telegram_id, wallet_pubkey), created_at), bump), end)) => Some((UserAccount { telegram_id, wallet_pubkey, created_at, bump }, end)),
            None => None,
        }
    }
}

} // verus!
