//! The record store: slots of bytes keyed by address, created once and then
//! only rewritten whole, and the operations of the ledger on it. Every
//! operation either succeeds and writes all it writes, or fails and writes
//! nothing.
use crate::address::{derive_address, derived, id_prefix, id_seed, Address, DeriveError};
use crate::codec::{
    lemma_slot_round_trip, lemma_slot_unique, decode_slot, discriminator, encode_slot, fits_slot, kind_tag, slot_holds, slot_image,
    RecordKind,
};
use crate::error::DaoError;
use crate::events::{
    GroupCreatedEvent, MemberAddedEvent, MemberRemovedEvent, ProposalCreatedEvent,
    UserAccountCreatedEvent, UserLoginEvent, VoteCastEvent,
};
use crate::governance::{
    add_member, cast_vote, check_group, check_proposal, copy_text, fresh_group, fresh_proposal,
    group_check, has_member, is_first_member, new_group, new_proposal, proposal_check,
    remove_member, same_address, tally, vote_check, voted, Tally, has_voted, votes_consistent,
    lemma_vote_step, VoteEvent,
};
use crate::records::{
    DaoRegistry, DaoRegistryModel, Group, GroupInfo, GroupInfoModel, GroupMemberModel, GroupModel,
    Proposal, ProposalInfo, ProposalInfoModel, ProposalModel, UserAccount, UserAccountModel,
};
use crate::wire::{le8, models, push_le8, Wire};
use vstd::prelude::*;

verus! {

broadcast use crate::wire::lemma_bytes_model;

/// Slot capacity of the registry: the payload length, the owner, room for
/// twenty group entries and the nonce.
pub const REGISTRY_SPACE: usize = 2409;

/// Slot capacity of a group.
pub const GROUP_SPACE: usize = 723;

/// Slot capacity of a proposal.
pub const PROPOSAL_SPACE: usize = 1430;

/// Slot capacity of a user identity.
pub const USER_ACCOUNT_SPACE: usize = 61;

/// One stored slot.
#[derive(Clone, Debug)]
pub struct Slot {
    pub address: Address,
    pub data: Vec<u8>,
}

/// The contents of a list of slots: a later slot at an address hides an
/// earlier one.
pub open spec fn slots_map(s: Seq<Slot>) -> Map<Seq<u8>, Seq<u8>>
    decreases s.len(),
{
    if s.len() == 0 {
        Map::empty()
    } else {
        slots_map(s.drop_last()).insert(s.last().address@, s.last().data@)
    }
}

pub open spec fn is_last(s: Seq<Slot>, a: Seq<u8>, i: int) -> bool {
    &&& 0 <= i < s.len()
    &&& s[i].address@ == a
    &&& forall|j: int| i < j < s.len() ==> (#[trigger] s[j]).address@ != a
}

proof fn lemma_map_last(s: Seq<Slot>, a: Seq<u8>, i: int)
    requires
        is_last(s, a, i),
    ensures
        slots_map(s).contains_key(a),
        slots_map(s)[a] == s[i].data@,
    decreases s.len(),
{
    if i < s.len() - 1 {
        assert forall|j: int| i < j < s.len() - 1 implies (#[trigger] s.drop_last()[j]).address@ != a by {
            assert(s.drop_last()[j] == s[j]);
        }
        lemma_map_last(s.drop_last(), a, i);
    }
}

proof fn lemma_map_absent(s: Seq<Slot>, a: Seq<u8>)
    requires
        forall|j: int| 0 <= j < s.len() ==> (#[trigger] s[j]).address@ != a,
    ensures
        !slots_map(s).contains_key(a),
    decreases s.len(),
{
    if s.len() > 0 {
        assert forall|j: int| 0 <= j < s.len() - 1 implies (#[trigger] s.drop_last()[j]).address@ != a by {
            assert(s.drop_last()[j] == s[j]);
        }
        lemma_map_absent(s.drop_last(), a);
    }
}

proof fn lemma_map_update(s: Seq<Slot>, a: Seq<u8>, i: int, x: Slot)
    requires
        is_last(s, a, i),
        x.address@ == a,
    ensures
        slots_map(s.update(i, x)) == slots_map(s).insert(a, x.data@),
    decreases s.len(),
{
    if i == s.len() - 1 {
        assert(s.update(i, x).drop_last() =~= s.drop_last());
        assert(slots_map(s.update(i, x)) =~= slots_map(s).insert(a, x.data@));
    } else {
        assert forall|j: int| i < j < s.len() - 1 implies (#[trigger] s.drop_last()[j]).address@ != a by {
            assert(s.drop_last()[j] == s[j]);
        }
        lemma_map_update(s.drop_last(), a, i, x);
        assert(s.update(i, x).drop_last() =~= s.drop_last().update(i, x));
        assert(slots_map(s.update(i, x)) =~= slots_map(s).insert(a, x.data@));
    }
}

/// The record of kind `R` stored at `a` under `tag`, if the slot holds one.
pub open spec fn record_at<R: Wire>(m: Map<Seq<u8>, Seq<u8>>, a: Seq<u8>, tag: Seq<u8>) -> Option<R::Model> {
    if m.contains_key(a) && exists|x: R::Model| slot_holds::<R>(m[a], tag, x) {
        Some(choose|x: R::Model| slot_holds::<R>(m[a], tag, x))
    } else {
        None
    }
}

/// Reading a record: not found, not a record of the kind, or the record.
pub open spec fn load_outcome<R: Wire>(m: Map<Seq<u8>, Seq<u8>>, a: Seq<u8>, tag: Seq<u8>) -> Result<R::Model, DaoError> {
    if !m.contains_key(a) {
        Err(DaoError::NotFound)
    } else {
        match record_at::<R>(m, a, tag) {
            Some(x) => Ok(x),
            None => Err(DaoError::InvalidRecord),
        }
    }
}

pub open spec fn derive_outcome(d: Result<(Seq<u8>, u8), DeriveError>) -> Result<(Seq<u8>, u8), DaoError> {
    match d {
        Ok(found) => Ok(found),
        Err(_) => Err(DaoError::DerivationExhausted),
    }
}

pub open spec fn registry_seed() -> Seq<u8> {
    seq![100u8, 97, 111, 95, 114, 101, 103, 105, 115, 116, 114, 121]
}

pub open spec fn group_seed() -> Seq<u8> {
    seq![103u8, 114, 111, 117, 112]
}

pub open spec fn proposal_seed() -> Seq<u8> {
    seq![112u8, 114, 111, 112, 111, 115, 97, 108]
}

pub open spec fn user_account_seed() -> Seq<u8> {
    seq![117u8, 115, 101, 114, 95, 97, 99, 99, 111, 117, 110, 116]
}

/// Where the registry lives.
pub open spec fn registry_addr() -> Result<(Seq<u8>, u8), DaoError> {
    derive_outcome(derived(registry_seed(), seq![]))
}

/// Where the group `group_id` lives: derived from its first eight bytes, so
/// identifiers that share them share the address.
pub open spec fn group_addr(group_id: Seq<u8>) -> Result<(Seq<u8>, u8), DaoError> {
    derive_outcome(derived(group_seed(), seq![id_prefix(group_id)]))
}

/// Where the proposal `proposal_id` of the group at `group` lives: derived
/// from the first eight bytes of each.
pub open spec fn proposal_addr(group: Seq<u8>, proposal_id: Seq<u8>) -> Result<(Seq<u8>, u8), DaoError> {
    derive_outcome(derived(proposal_seed(), seq![group.take(8), id_prefix(proposal_id)]))
}

/// Where the identity of the outside handle `telegram_id` lives.
pub open spec fn user_addr(telegram_id: i64) -> Result<(Seq<u8>, u8), DaoError> {
    derive_outcome(derived(user_account_seed(), seq![le8(#[verifier::truncate] (telegram_id as u64))]))
}

pub open spec fn derive_view(r: Result<(Address, u8), DaoError>) -> Result<(Seq<u8>, u8), DaoError> {
    match r {
        Ok((a, n)) => Ok((a@, n)),
        Err(e) => Err(e),
    }
}

fn derive_for(namespace: &[u8], parts: &Vec<Vec<u8>>) -> (r: Result<(Address, u8), DaoError>)
    ensures
        derive_view(r) == derive_outcome(derived(namespace@, crate::address::seeds_view(parts@))),
{
    match derive_address(namespace, parts) {
        Ok(found) => Ok(found),
        Err(_) => Err(DaoError::DerivationExhausted),
    }
}

pub fn registry_address() -> (r: Result<(Address, u8), DaoError>)
    ensures
        derive_view(r) == registry_addr(),
{
    let ns: [u8; 12] = [100u8, 97, 111, 95, 114, 101, 103, 105, 115, 116, 114, 121];
    assert(ns@ =~= registry_seed());
    let parts: Vec<Vec<u8>> = Vec::new();
    assert(crate::address::seeds_view(parts@) =~= seq![]);
    derive_for(&ns, &parts)
}

pub fn group_address(group_id: &[u8]) -> (r: Result<(Address, u8), DaoError>)
    ensures
        derive_view(r) == group_addr(group_id@),
{
    let ns: [u8; 5] = [103u8, 114, 111, 117, 112];
    assert(ns@ =~= group_seed());
    let mut parts: Vec<Vec<u8>> = Vec::new();
    parts.push(id_seed(group_id));
    assert(crate::address::seeds_view(parts@) =~= seq![id_prefix(group_id@)]);
    derive_for(&ns, &parts)
}

pub fn proposal_address(group: &Address, proposal_id: &[u8]) -> (r: Result<(Address, u8), DaoError>)
    ensures
        derive_view(r) == proposal_addr(group@, proposal_id@),
{
    let ns: [u8; 8] = [112u8, 114, 111, 112, 111, 115, 97, 108];
    assert(ns@ =~= proposal_seed());
    let mut parts: Vec<Vec<u8>> = Vec::new();
    parts.push(crate::address::prefix_copy(&group.bytes, 8));
    parts.push(id_seed(proposal_id));
    assert(crate::address::seeds_view(parts@) =~= seq![group@.take(8), id_prefix(proposal_id@)]);
    derive_for(&ns, &parts)
}

pub fn user_address(telegram_id: i64) -> (r: Result<(Address, u8), DaoError>)
    ensures
        derive_view(r) == user_addr(telegram_id),
{
    let ns: [u8; 12] = [117u8, 115, 101, 114, 95, 97, 99, 99, 111, 117, 110, 116];
    assert(ns@ =~= user_account_seed());
    let mut id: Vec<u8> = Vec::new();
    push_le8(&mut id, #[verifier::truncate] (telegram_id as u64));
    let mut parts: Vec<Vec<u8>> = Vec::new();
    parts.push(id);
    assert(crate::address::seeds_view(parts@) =~= seq![le8(#[verifier::truncate] (telegram_id as u64))]);
    derive_for(&ns, &parts)
}

/// The store of slots, with the ledger's operations.
pub struct Ledger {
    slots: Vec<Slot>,
}

impl View for Ledger {
    type V = Map<Seq<u8>, Seq<u8>>;

    closed spec fn view(&self) -> Map<Seq<u8>, Seq<u8>> {
        slots_map(self.slots@)
    }
}

impl Ledger {
    /// An empty store.
    pub fn new() -> (r: Ledger)
        ensures
            r@ == Map::<Seq<u8>, Seq<u8>>::empty(),
    {
        let r = Ledger { slots: Vec::new() };
        assert(r@ =~= Map::<Seq<u8>, Seq<u8>>::empty());
        r
    }

    fn find(&self, a: &Address) -> (r: Option<usize>)
        ensures
            match r {
                Some(i) => is_last(self.slots@, a@, i as int) && self@.contains_key(a@) && self@[a@]
                    == self.slots@[i as int].data@,
                None => !self@.contains_key(a@),
            },
    {
        let mut k: usize = self.slots.len();
        while k > 0
            invariant
                k <= self.slots@.len(),
                forall|j: int| k <= j < self.slots@.len() ==> (#[trigger] self.slots@[j]).address@ != a@,
            decreases k,
        {
            if same_address(&self.slots[k - 1].address, a) {
                proof {
                    lemma_map_last(self.slots@, a@, k - 1);
                }
                return Some(k - 1);
            }
            k -= 1;
        }
        proof {
            lemma_map_absent(self.slots@, a@);
        }
        None
    }

    /// A copy of the bytes stored at `a`.
    pub fn slot(&self, a: &Address) -> (r: Option<Vec<u8>>)
        ensures
            match r {
                Some(b) => self@.contains_key(a@) && b@ == self@[a@],
                None => !self@.contains_key(a@),
            },
    {
        match self.find(a) {
            Some(i) => Some(copy_text(&self.slots[i].data)),
            None => None,
        }
    }

    /// Creates the slot `a` holding `data`; fails if `a` is taken.
    pub fn create_slot(&mut self, a: &Address, data: Vec<u8>) -> (r: Result<(), DaoError>)
        ensures
            match create_slot_outcome(old(self)@, a@, data@) {
                Ok(m) => r is Ok && final(self)@ == m,
                Err(e) => r == Err::<(), DaoError>(e) && final(self)@ == old(self)@,
            },
    {
        if self.find(a).is_some() {
            return Err(DaoError::AlreadyExists);
        }
        self.push_slot(a, data);
        Ok(())
    }

    fn push_slot(&mut self, a: &Address, data: Vec<u8>)
        ensures
            final(self)@ == old(self)@.insert(a@, data@),
    {
        let ghost before = self.slots@;
        self.slots.push(Slot { address: *a, data });
        assert(self.slots@.drop_last() =~= before);
    }

    fn replace_slot(&mut self, i: usize, data: Vec<u8>)
        requires
            is_last(old(self).slots@, old(self).slots@[i as int].address@, i as int),
        ensures
            final(self)@ == old(self)@.insert(old(self).slots@[i as int].address@, data@),
            final(self).slots@.len() == old(self).slots@.len(),
            final(self).slots@[i as int].address == old(self).slots@[i as int].address,
    {
        let address = self.slots[i].address;
        let ghost before = self.slots@;
        let x = Slot { address, data };
        self.slots[i] = x;
        proof {
            lemma_map_update(before, address@, i as int, x);
            assert(self.slots@ =~= before.update(i as int, x));
        }
    }

    /// Reads the record of kind `R` at `a` and the index of its slot.
    fn load<R: Wire>(&self, a: &Address, kind: RecordKind) -> (r: Result<(R, usize), DaoError>)
        ensures
            match load_outcome::<R>(self@, a@, kind_tag(kind)) {
                Ok(x) => r matches Ok((v, i)) && v.model() == x && is_last(self.slots@, a@, i as int)
                    && self@[a@] == self.slots@[i as int].data@,
                Err(e) => r == Err::<(R, usize), DaoError>(e),
            },
    {
        let i = match self.find(a) {
            Some(i) => i,
            None => return Err(DaoError::NotFound),
        };
        let tag = discriminator(kind);
        match decode_slot::<R>(self.slots[i].data.as_slice(), &tag) {
            Ok(v) => {
                let ghost x = choose|x: R::Model| slot_holds::<R>(self@[a@], kind_tag(kind), x);
                assert(slot_holds::<R>(self@[a@], kind_tag(kind), v.model()));
                assert(slot_holds::<R>(self@[a@], kind_tag(kind), x));
                Ok((v, i))
            },
            Err(_) => Err(DaoError::InvalidRecord),
        }
    }

    /// The record of kind `R` at `a`.
    fn read_record<R: Wire>(&self, a: &Address, kind: RecordKind) -> (r: Result<R, DaoError>)
        ensures
            match load_outcome::<R>(self@, a@, kind_tag(kind)) {
                Ok(x) => r matches Ok(v) && v.model() == x,
                Err(e) => r == Err::<R, DaoError>(e),
            },
    {
        match self.load::<R>(a, kind) {
            Ok((v, _)) => Ok(v),
            Err(e) => Err(e),
        }
    }

    /// The registry, read from its derived address.
    pub fn get_registry(&self) -> (r: Result<DaoRegistry, DaoError>)
        ensures
            match registry_addr() {
                Err(e) => r == Err::<DaoRegistry, DaoError>(e),
                Ok((a, _)) => match load_outcome::<DaoRegistry>(self@, a, kind_tag(RecordKind::Registry)) {
                    Ok(x) => r matches Ok(v) && v@ == x,
                    Err(e) => r == Err::<DaoRegistry, DaoError>(e),
                },
            },
    {
        let (a, _) = match registry_address() {
            Ok(found) => found,
            Err(e) => return Err(e),
        };
        self.read_record::<DaoRegistry>(&a, RecordKind::Registry)
    }

    /// The registry's list of groups, in the order they were created.
    pub fn get_all_groups(&self) -> (r: Result<Vec<GroupInfo>, DaoError>)
        ensures
            match registry_addr() {
                Err(e) => r == Err::<Vec<GroupInfo>, DaoError>(e),
                Ok((a, _)) => match load_outcome::<DaoRegistry>(self@, a, kind_tag(RecordKind::Registry)) {
                    Ok(x) => r matches Ok(v) && v.model() == x.groups,
                    Err(e) => r == Err::<Vec<GroupInfo>, DaoError>(e),
                },
            },
    {
        match self.get_registry() {
            Ok(reg) => Ok(reg.groups),
            Err(e) => Err(e),
        }
    }

    /// The group stored at `a`.
    pub fn get_group(&self, a: &Address) -> (r: Result<Group, DaoError>)
        ensures
            match load_outcome::<Group>(self@, a@, kind_tag(RecordKind::Group)) {
                Ok(x) => r matches Ok(v) && v@ == x,
                Err(e) => r == Err::<Group, DaoError>(e),
            },
    {
        self.read_record::<Group>(a, RecordKind::Group)
    }

    /// The proposal stored at `a`.
    pub fn get_proposal(&self, a: &Address) -> (r: Result<Proposal, DaoError>)
        ensures
            match load_outcome::<Proposal>(self@, a@, kind_tag(RecordKind::Proposal)) {
                Ok(x) => r matches Ok(v) && v@ == x,
                Err(e) => r == Err::<Proposal, DaoError>(e),
            },
    {
        self.read_record::<Proposal>(a, RecordKind::Proposal)
    }

    /// Creates the registry, owned by `authority`, at its derived address.
    pub fn initialize(&mut self, authority: Address) -> (r: Result<(), DaoError>)
        ensures
            match initialize_outcome(old(self)@, authority@) {
                Ok(m) => r is Ok && final(self)@ == m,
                Err(e) => r == Err::<(), DaoError>(e) && final(self)@ == old(self)@,
            },
    {
        let (a, bump) = match registry_address() {
            Ok(found) => found,
            Err(e) => return Err(e),
        };
        if self.find(&a).is_some() {
            return Err(DaoError::AlreadyExists);
        }
        let record = DaoRegistry { authority, groups: Vec::new(), bump };
        assert(record@.groups =~= Seq::empty());
        let tag = discriminator(RecordKind::Registry);
        match encode_slot(&tag, &record, REGISTRY_SPACE) {
            Some(bytes) => {
                self.push_slot(&a, bytes);
                Ok(())
            },
            None => Err(DaoError::RecordTooLarge),
        }
    }

    /// Creates the identity of the outside handle `telegram_id`, bound to
    /// `wallet`, at its derived address.
    pub fn create_user_account(&mut self, telegram_id: i64, wallet: Address, now: i64) -> (r: Result<UserAccountCreatedEvent, DaoError>)
        ensures
            match create_user_outcome(old(self)@, telegram_id, wallet@, now) {
                Ok(m) => final(self)@ == m && r == Ok::<UserAccountCreatedEvent, DaoError>(
                    UserAccountCreatedEvent { telegram_id, wallet_pubkey: wallet, timestamp: now },
                ),
                Err(e) => r == Err::<UserAccountCreatedEvent, DaoError>(e) && final(self)@ == old(self)@,
            },
    {
        let (a, bump) = match user_address(telegram_id) {
            Ok(found) => found,
            Err(e) => return Err(e),
        };
        if self.find(&a).is_some() {
            return Err(DaoError::AlreadyExists);
        }
        let record = UserAccount { telegram_id, wallet_pubkey: wallet, created_at: now, bump };
        let tag = discriminator(RecordKind::UserAccount);
        match encode_slot(&tag, &record, USER_ACCOUNT_SPACE) {
            Some(bytes) => {
                self.push_slot(&a, bytes);
                Ok(UserAccountCreatedEvent { telegram_id, wallet_pubkey: wallet, timestamp: now })
            },
            None => Err(DaoError::RecordTooLarge),
        }
    }

    /// Checks that the identity at the derived address of `telegram_id` is
    /// that handle's, and reports its wallet.
    pub fn login_user(&self, telegram_id: i64, now: i64) -> (r: Result<UserLoginEvent, DaoError>)
        ensures
            match login_outcome(self@, telegram_id) {
                Ok(w) => r matches Ok(ev) && ev.telegram_id == telegram_id && ev.wallet_pubkey@ == w
                    && ev.timestamp == now,
                Err(e) => r == Err::<UserLoginEvent, DaoError>(e),
            },
    {
        let (a, _) = match user_address(telegram_id) {
            Ok(found) => found,
            Err(e) => return Err(e),
        };
        let user = match self.read_record::<UserAccount>(&a, RecordKind::UserAccount) {
            Ok(u) => u,
            Err(e) => return Err(e),
        };
        if user.telegram_id != telegram_id {
            return Err(DaoError::InvalidTelegramId);
        }
        Ok(UserLoginEvent { telegram_id, wallet_pubkey: user.wallet_pubkey, timestamp: now })
    }

    /// Creates the group `group_id`, owned by `authority`, at its derived
    /// address, and lists it in the registry.
    pub fn create_group(
        &mut self,
        authority: Address,
        group_id: Vec<u8>,
        name: Vec<u8>,
        description: Vec<u8>,
        now: i64,
    ) -> (r: Result<GroupCreatedEvent, DaoError>)
        ensures
            match create_group_outcome(old(self)@, authority@, group_id@, name@, description@, now) {
                Ok(m) => final(self)@ == m && (r matches Ok(ev) && ev.group_id@ == group_id@
                    && ev.authority == authority && ev.group_pubkey@ == found_address(
                    group_addr(group_id@),
                ) && ev.timestamp == now),
                Err(e) => r == Err::<GroupCreatedEvent, DaoError>(e) && final(self)@ == old(self)@,
            },
    {
        let (ga, gb) = match group_address(group_id.as_slice()) {
            Ok(found) => found,
            Err(e) => return Err(e),
        };
        if self.find(&ga).is_some() {
            return Err(DaoError::AlreadyExists);
        }
        let (ra, _) = match registry_address() {
            Ok(found) => found,
            Err(e) => return Err(e),
        };
        let (mut registry, ri) = match self.load::<DaoRegistry>(&ra, RecordKind::Registry) {
            Ok(found) => found,
            Err(e) => return Err(e),
        };
        match check_group(&group_id, &name, &description) {
            Ok(()) => {},
            Err(e) => return Err(e),
        }
        let ghost gid = group_id@;
        let info = GroupInfo { group_id: copy_text(&group_id), authority, pubkey: ga };
        let event_id = copy_text(&group_id);
        let group = new_group(group_id, name, description, authority, now, gb);
        let ghost before = registry@;
        registry.groups.push(info);
        assert(models(registry.groups@) =~= before.groups.push(info@));
        assert(info@ == GroupInfoModel { group_id: gid, authority: authority@, pubkey: ga@ });
        assert(registry@ == DaoRegistryModel {
            groups: before.groups.push(GroupInfoModel { group_id: gid, authority: authority@, pubkey: ga@ }),
            ..before
        });
        let group_bytes = match encode_slot(&discriminator(RecordKind::Group), &group, GROUP_SPACE) {
            Some(b) => b,
            None => return Err(DaoError::RecordTooLarge),
        };
        let capacity = self.slots[ri].data.len();
        let registry_bytes = match encode_slot(&discriminator(RecordKind::Registry), &registry, capacity) {
            Some(b) => b,
            None => return Err(DaoError::RecordTooLarge),
        };
        self.replace_slot(ri, registry_bytes);
        self.push_slot(&ga, group_bytes);
        Ok(GroupCreatedEvent { group_id: event_id, authority, group_pubkey: ga, timestamp: now })
    }

    /// Creates the proposal `proposal_id` of the group at `group` at its
    /// derived address, and lists it in the group. Only the group's owner may.
    #[verifier::rlimit(100)]
    pub fn create_proposal(
        &mut self,
        authority: Address,
        group: &Address,
        proposal_id: Vec<u8>,
        title: Vec<u8>,
        description: Vec<u8>,
        choices: Vec<Vec<u8>>,
        voting_start: i64,
        voting_end: i64,
        token_mint: Option<Address>,
        now: i64,
    ) -> (r: Result<ProposalCreatedEvent, DaoError>)
        ensures
            match create_proposal_outcome(
                old(self)@,
                authority@,
                group@,
                proposal_id@,
                title@,
                description@,
                choices.model(),
                voting_start,
                voting_end,
                token_mint.model(),
                now,
            ) {
                Ok(m) => final(self)@ == m && (r matches Ok(ev) && ev.proposal_id@ == proposal_id@
                    && ev.creator == authority && ev.proposal_pubkey@ == found_address(
                    proposal_addr(group@, proposal_id@),
                ) && ev.voting_start == voting_start && ev.voting_end == voting_end && ev.timestamp
                    == now),
                Err(e) => r == Err::<ProposalCreatedEvent, DaoError>(e) && final(self)@ == old(self)@,
            },
    {
        let (pa, pb) = match proposal_address(group, proposal_id.as_slice()) {
            Ok(found) => found,
            Err(e) => return Err(e),
        };
        if self.find(&pa).is_some() {
            return Err(DaoError::AlreadyExists);
        }
        let (mut g, gi) = match self.load::<Group>(group, RecordKind::Group) {
            Ok(found) => found,
            Err(e) => return Err(e),
        };
        if !same_address(&g.authority, &authority) {
            return Err(DaoError::Unauthorized);
        }
        match check_proposal(&proposal_id, &title, &description, &choices, voting_start, voting_end, now) {
            Ok(()) => {},
            Err(e) => return Err(e),
        }
        let ghost pid = proposal_id@;
        let info = ProposalInfo { proposal_id: copy_text(&proposal_id), pubkey: pa, created_at: now };
        let event_id = copy_text(&proposal_id);
        let event_group = copy_text(&g.group_id);
        let proposal = new_proposal(
            proposal_id,
            copy_text(&g.group_id),
            title,
            description,
            choices,
            voting_start,
            voting_end,
            token_mint,
            authority,
            now,
            pb,
        );
        let ghost before = g@;
        g.proposals.push(info);
        assert(models(g.proposals@) =~= before.proposals.push(info@));
        assert(info@ == ProposalInfoModel { proposal_id: pid, pubkey: pa@, created_at: now });
        assert(g@ == GroupModel {
            proposals: before.proposals.push(ProposalInfoModel { proposal_id: pid, pubkey: pa@, created_at: now }),
            ..before
        });
        let proposal_bytes = match encode_slot(&discriminator(RecordKind::Proposal), &proposal, PROPOSAL_SPACE) {
            Some(b) => b,
            None => return Err(DaoError::RecordTooLarge),
        };
        let capacity = self.slots[gi].data.len();
        let group_bytes = match encode_slot(&discriminator(RecordKind::Group), &g, capacity) {
            Some(b) => b,
            None => return Err(DaoError::RecordTooLarge),
        };
        self.replace_slot(gi, group_bytes);
        self.push_slot(&pa, proposal_bytes);
        Ok(ProposalCreatedEvent {
            group_id: event_group,
            proposal_id: event_id,
            creator: authority,
            proposal_pubkey: pa,
            voting_start,
            voting_end,
            timestamp: now,
        })
    }

    /// Casts `voter`'s vote for `choice` on the proposal at `proposal` at
    /// time `now`. The weight comes from the voter's native balance when the
    /// proposal is weighted by it.
    pub fn vote_on_proposal(
        &mut self,
        proposal: &Address,
        voter: Address,
        choice: u8,
        now: i64,
        voter_balance: u64,
    ) -> (r: Result<VoteCastEvent, DaoError>)
        ensures
            match vote_outcome(old(self)@, proposal@, voter@, choice, now, voter_balance) {
                Ok(m) => final(self)@ == m && (r matches Ok(ev) && ev.voter == voter && ev.choice == choice
                    && ev.timestamp == now && ev.vote_weight == vote_weight_of(
                    old(self)@,
                    proposal@,
                    voter@,
                    choice,
                    now,
                    voter_balance)),
                Err(e) => r == Err::<VoteCastEvent, DaoError>(e) && final(self)@ == old(self)@,
            },
    {
        let (mut p, pi) = match self.load::<Proposal>(proposal, RecordKind::Proposal) {
            Ok(found) => found,
            Err(e) => return Err(e),
        };
        let record = match cast_vote(&mut p, voter, choice, now, voter_balance) {
            Ok(v) => v,
            Err(e) => return Err(e),
        };
        let capacity = self.slots[pi].data.len();
        let bytes = match encode_slot(&discriminator(RecordKind::Proposal), &p, capacity) {
            Some(b) => b,
            None => return Err(DaoError::RecordTooLarge),
        };
        self.replace_slot(pi, bytes);
        Ok(VoteCastEvent {
            group_id: copy_text(&p.group_id),
            proposal_id: copy_text(&p.proposal_id),
            voter,
            choice,
            vote_weight: record.vote_weight,
            timestamp: now,
        })
    }

    /// Adds `member` to the group at `group`; only the group's owner may.
    pub fn add_group_member(&mut self, group: &Address, authority: Address, member: Address, now: i64) -> (r: Result<MemberAddedEvent, DaoError>)
        ensures
            match add_member_outcome(old(self)@, group@, authority@, member@, now) {
                Ok(m) => final(self)@ == m && (r matches Ok(ev) && ev.member == member && ev.timestamp == now),
                Err(e) => r == Err::<MemberAddedEvent, DaoError>(e) && final(self)@ == old(self)@,
            },
    {
        let (mut g, gi) = match self.load::<Group>(group, RecordKind::Group) {
            Ok(found) => found,
            Err(e) => return Err(e),
        };
        if !same_address(&g.authority, &authority) {
            return Err(DaoError::Unauthorized);
        }
        match add_member(&mut g, member, now) {
            Ok(()) => {},
            Err(e) => return Err(e),
        }
        let capacity = self.slots[gi].data.len();
        let bytes = match encode_slot(&discriminator(RecordKind::Group), &g, capacity) {
            Some(b) => b,
            None => return Err(DaoError::RecordTooLarge),
        };
        self.replace_slot(gi, bytes);
        Ok(MemberAddedEvent { group_id: copy_text(&g.group_id), member, timestamp: now })
    }

    /// Removes `member` from the group at `group`; only the group's owner may.
    pub fn remove_group_member(&mut self, group: &Address, authority: Address, member: Address, now: i64) -> (r: Result<MemberRemovedEvent, DaoError>)
        ensures
            match remove_member_outcome(old(self)@, group@, authority@, member@) {
                Ok(m) => final(self)@ == m && (r matches Ok(ev) && ev.member == member && ev.timestamp == now),
                Err(e) => r == Err::<MemberRemovedEvent, DaoError>(e) && final(self)@ == old(self)@,
            },
    {
        let (mut g, gi) = match self.load::<Group>(group, RecordKind::Group) {
            Ok(found) => found,
            Err(e) => return Err(e),
        };
        if !same_address(&g.authority, &authority) {
            return Err(DaoError::Unauthorized);
        }
        let ghost before = g@;
        match remove_member(&mut g, &member) {
            Ok(()) => {},
            Err(e) => return Err(e),
        }
        proof {
            let i = choose|i: int| is_first_member(before.members, member@, i);
            assert(is_first_member(before.members, member@, i));
            assert forall|k: int| is_first_member(before.members, member@, k) implies k == i by {
                if k < i {
                    assert(before.members[k].pubkey == member@);
                } else if i < k {
                    assert(before.members[i].pubkey == member@);
                }
            }
        }
        let capacity = self.slots[gi].data.len();
        let bytes = match encode_slot(&discriminator(RecordKind::Group), &g, capacity) {
            Some(b) => b,
            None => return Err(DaoError::RecordTooLarge),
        };
        self.replace_slot(gi, bytes);
        Ok(MemberRemovedEvent { group_id: copy_text(&g.group_id), member, timestamp: now })
    }

    /// The results of the proposal at `proposal` at time `now`.
    pub fn tally_proposal(&self, proposal: &Address, now: i64) -> (r: Result<Tally, DaoError>)
        ensures
            match load_outcome::<Proposal>(self@, proposal@, kind_tag(RecordKind::Proposal)) {
                Ok(p) => r matches Ok(t) && t.choice_votes@ == p.choice_votes && t.total_votes
                    == crate::governance::sum_votes(p.choice_votes) && t.total_voters == p.voters.len()
                    && t.is_closed == (now > p.voting_end),
                Err(e) => r == Err::<Tally, DaoError>(e),
            },
    {
        match self.read_record::<Proposal>(proposal, RecordKind::Proposal) {
            Ok(p) => Ok(tally(&p, now)),
            Err(e) => Err(e),
        }
    }
}

pub open spec fn initialize_outcome(m: Map<Seq<u8>, Seq<u8>>, authority: Seq<u8>) -> Result<Map<Seq<u8>, Seq<u8>>, DaoError> {
    match registry_addr() {
        Err(e) => Err(e),
        Ok((a, bump)) => if m.contains_key(a) {
            Err(DaoError::AlreadyExists)
        } else {
            let rec = DaoRegistryModel { authority, groups: seq![], bump };
            if fits_slot::<DaoRegistry>(rec, REGISTRY_SPACE as nat) {
                Ok(m.insert(a, slot_image::<DaoRegistry>(kind_tag(RecordKind::Registry), rec, REGISTRY_SPACE as nat)))
            } else {
                Err(DaoError::RecordTooLarge)
            }
        },
    }
}

pub open spec fn create_user_outcome(m: Map<Seq<u8>, Seq<u8>>, telegram_id: i64, wallet: Seq<u8>, now: i64) -> Result<Map<Seq<u8>, Seq<u8>>, DaoError> {
    match user_addr(telegram_id) {
        Err(e) => Err(e),
        Ok((a, bump)) => if m.contains_key(a) {
            Err(DaoError::AlreadyExists)
        } else {
            let rec = UserAccountModel { telegram_id, wallet_pubkey: wallet, created_at: now, bump };
            if fits_slot::<UserAccount>(rec, USER_ACCOUNT_SPACE as nat) {
                Ok(m.insert(a, slot_image::<UserAccount>(kind_tag(RecordKind::UserAccount), rec, USER_ACCOUNT_SPACE as nat)))
            } else {
                Err(DaoError::RecordTooLarge)
            }
        },
    }
}

/// The wallet bound to `telegram_id`, or why it cannot be had.
pub open spec fn login_outcome(m: Map<Seq<u8>, Seq<u8>>, telegram_id: i64) -> Result<Seq<u8>, DaoError> {
    match user_addr(telegram_id) {
        Err(e) => Err(e),
        Ok((a, _)) => match load_outcome::<UserAccount>(m, a, kind_tag(RecordKind::UserAccount)) {
            Err(e) => Err(e),
            Ok(u) => if u.telegram_id != telegram_id {
                Err(DaoError::InvalidTelegramId)
            } else {
                Ok(u.wallet_pubkey)
            },
        },
    }
}

pub open spec fn found_address(d: Result<(Seq<u8>, u8), DaoError>) -> Seq<u8> {
    match d {
        Ok((a, _)) => a,
        Err(_) => Seq::empty(),
    }
}

pub open spec fn create_group_outcome(
    m: Map<Seq<u8>, Seq<u8>>,
    authority: Seq<u8>,
    group_id: Seq<u8>,
    name: Seq<u8>,
    description: Seq<u8>,
    now: i64,
) -> Result<Map<Seq<u8>, Seq<u8>>, DaoError> {
    match group_addr(group_id) {
        Err(e) => Err(e),
        Ok((ga, gb)) => if m.contains_key(ga) {
            Err(DaoError::AlreadyExists)
        } else {
            match registry_addr() {
                Err(e) => Err(e),
                Ok((ra, _)) => match load_outcome::<DaoRegistry>(m, ra, kind_tag(RecordKind::Registry)) {
                    Err(e) => Err(e),
                    Ok(reg) => match group_check(group_id, name, description) {
                        Some(e) => Err(e),
                        None => {
                            let g = fresh_group(group_id, name, description, authority, now, gb);
                            let reg2 = DaoRegistryModel {
                                groups: reg.groups.push(GroupInfoModel { group_id, authority, pubkey: ga }),
                                ..reg
                            };
                            let cap = m[ra].len();
                            if fits_slot::<Group>(g, GROUP_SPACE as nat) && fits_slot::<DaoRegistry>(reg2, cap) {
                                Ok(m.insert(ra, slot_image::<DaoRegistry>(kind_tag(RecordKind::Registry), reg2, cap)).insert(
                                    ga,
                                    slot_image::<Group>(kind_tag(RecordKind::Group), g, GROUP_SPACE as nat),
                                ))
                            } else {
                                Err(DaoError::RecordTooLarge)
                            }
                        },
                    },
                },
            }
        },
    }
}

pub open spec fn create_proposal_outcome(
    m: Map<Seq<u8>, Seq<u8>>,
    authority: Seq<u8>,
    group: Seq<u8>,
    proposal_id: Seq<u8>,
    title: Seq<u8>,
    description: Seq<u8>,
    choices: Seq<Seq<u8>>,
    voting_start: i64,
    voting_end: i64,
    token_mint: Option<Seq<u8>>,
    now: i64,
) -> Result<Map<Seq<u8>, Seq<u8>>, DaoError> {
    match proposal_addr(group, proposal_id) {
        Err(e) => Err(e),
        Ok((pa, pb)) => if m.contains_key(pa) {
            Err(DaoError::AlreadyExists)
        } else {
            match load_outcome::<Group>(m, group, kind_tag(RecordKind::Group)) {
                Err(e) => Err(e),
                Ok(g) => if g.authority != authority {
                    Err(DaoError::Unauthorized)
                } else {
                    match proposal_check(proposal_id, title, description, choices, voting_start, voting_end, now) {
                        Some(e) => Err(e),
                        None => {
                            let p = fresh_proposal(
                                proposal_id,
                                g.group_id,
                                title,
                                description,
                                choices,
                                voting_start,
                                voting_end,
                                token_mint,
                                authority,
                                now,
                                pb,
                            );
                            let g2 = GroupModel {
                                proposals: g.proposals.push(ProposalInfoModel { proposal_id, pubkey: pa, created_at: now }),
                                ..g
                            };
                            let cap = m[group].len();
                            if fits_slot::<Proposal>(p, PROPOSAL_SPACE as nat) && fits_slot::<Group>(g2, cap) {
                                Ok(m.insert(group, slot_image::<Group>(kind_tag(RecordKind::Group), g2, cap)).insert(
                                    pa,
                                    slot_image::<Proposal>(kind_tag(RecordKind::Proposal), p, PROPOSAL_SPACE as nat),
                                ))
                            } else {
                                Err(DaoError::RecordTooLarge)
                            }
                        },
                    }
                },
            }
        },
    }
}

pub open spec fn vote_outcome(
    m: Map<Seq<u8>, Seq<u8>>,
    proposal: Seq<u8>,
    voter: Seq<u8>,
    choice: u8,
    now: i64,
    voter_balance: u64,
) -> Result<Map<Seq<u8>, Seq<u8>>, DaoError> {
    match load_outcome::<Proposal>(m, proposal, kind_tag(RecordKind::Proposal)) {
        Err(e) => Err(e),
        Ok(p) => match vote_check(p, voter, choice, now, voter_balance) {
            Err(e) => Err(e),
            Ok(w) => {
                let q = voted(p, voter, choice, w, now);
                let cap = m[proposal].len();
                if fits_slot::<Proposal>(q, cap) {
                    Ok(m.insert(proposal, slot_image::<Proposal>(kind_tag(RecordKind::Proposal), q, cap)))
                } else {
                    Err(DaoError::RecordTooLarge)
                }
            },
        },
    }
}

/// The weight a vote carries when it is accepted.
pub open spec fn vote_weight_of(
    m: Map<Seq<u8>, Seq<u8>>,
    proposal: Seq<u8>,
    voter: Seq<u8>,
    choice: u8,
    now: i64,
    voter_balance: u64,
) -> u64 {
    match load_outcome::<Proposal>(m, proposal, kind_tag(RecordKind::Proposal)) {
        Ok(p) => match vote_check(p, voter, choice, now, voter_balance) {
            Ok(w) => w,
            Err(_) => 0,
        },
        Err(_) => 0,
    }
}

pub open spec fn add_member_outcome(
    m: Map<Seq<u8>, Seq<u8>>,
    group: Seq<u8>,
    authority: Seq<u8>,
    member: Seq<u8>,
    now: i64,
) -> Result<Map<Seq<u8>, Seq<u8>>, DaoError> {
    match load_outcome::<Group>(m, group, kind_tag(RecordKind::Group)) {
        Err(e) => Err(e),
        Ok(g) => if g.authority != authority {
            Err(DaoError::Unauthorized)
        } else if has_member(g.members, member) {
            Err(DaoError::MemberAlreadyExists)
        } else {
            let g2 = GroupModel {
                members: g.members.push(GroupMemberModel { pubkey: member, joined_at: now }),
                ..g
            };
            let cap = m[group].len();
            if fits_slot::<Group>(g2, cap) {
                Ok(m.insert(group, slot_image::<Group>(kind_tag(RecordKind::Group), g2, cap)))
            } else {
                Err(DaoError::RecordTooLarge)
            }
        },
    }
}

pub open spec fn remove_member_outcome(
    m: Map<Seq<u8>, Seq<u8>>,
    group: Seq<u8>,
    authority: Seq<u8>,
    member: Seq<u8>,
) -> Result<Map<Seq<u8>, Seq<u8>>, DaoError> {
    match load_outcome::<Group>(m, group, kind_tag(RecordKind::Group)) {
        Err(e) => Err(e),
        Ok(g) => if g.authority != authority {
            Err(DaoError::Unauthorized)
        } else if !has_member(g.members, member) {
            Err(DaoError::MemberNotFound)
        } else {
            let i = choose|i: int| is_first_member(g.members, member, i);
            let g2 = GroupModel { members: g.members.remove(i), ..g };
            let cap = m[group].len();
            if fits_slot::<Group>(g2, cap) {
                Ok(m.insert(group, slot_image::<Group>(kind_tag(RecordKind::Group), g2, cap)))
            } else {
                Err(DaoError::RecordTooLarge)
            }
        },
    }
}

/// Creating the slot `a` holding `data`.
pub open spec fn create_slot_outcome(m: Map<Seq<u8>, Seq<u8>>, a: Seq<u8>, data: Seq<u8>) -> Result<Map<Seq<u8>, Seq<u8>>, DaoError> {
    if m.contains_key(a) {
        Err(DaoError::AlreadyExists)
    } else {
        Ok(m.insert(a, data))
    }
}

/// Creation happens once: after a slot is created at an address, creating
/// there again fails as already existing, whatever it would hold.
pub proof fn lemma_create_slot_once(m: Map<Seq<u8>, Seq<u8>>, a: Seq<u8>, first: Seq<u8>, second: Seq<u8>)
    requires
        create_slot_outcome(m, a, first) is Ok,
    ensures
        create_slot_outcome(create_slot_outcome(m, a, first)->Ok_0, a, second) == Err::<
            Map<Seq<u8>, Seq<u8>>,
            DaoError,
        >(DaoError::AlreadyExists),
{
}

/// Creating the same group twice fails the second time as already
/// existing, whatever the second call's owner, texts and time.
pub proof fn lemma_create_group_once(
    m: Map<Seq<u8>, Seq<u8>>,
    group_id: Seq<u8>,
    authority: Seq<u8>,
    name: Seq<u8>,
    description: Seq<u8>,
    now: i64,
    authority2: Seq<u8>,
    name2: Seq<u8>,
    description2: Seq<u8>,
    now2: i64,
)
    requires
        create_group_outcome(m, authority, group_id, name, description, now) is Ok,
    ensures
        create_group_outcome(
            create_group_outcome(m, authority, group_id, name, description, now)->Ok_0,
            authority2,
            group_id,
            name2,
            description2,
            now2,
        ) == Err::<Map<Seq<u8>, Seq<u8>>, DaoError>(DaoError::AlreadyExists),
{
}

/// Creating the same proposal twice fails the second time as already
/// existing, whatever the second call's texts, choices, window and time.
pub proof fn lemma_create_proposal_once(
    m: Map<Seq<u8>, Seq<u8>>,
    authority: Seq<u8>,
    group: Seq<u8>,
    proposal_id: Seq<u8>,
    title: Seq<u8>,
    description: Seq<u8>,
    choices: Seq<Seq<u8>>,
    voting_start: i64,
    voting_end: i64,
    token_mint: Option<Seq<u8>>,
    now: i64,
    title2: Seq<u8>,
    description2: Seq<u8>,
    choices2: Seq<Seq<u8>>,
    voting_start2: i64,
    voting_end2: i64,
    token_mint2: Option<Seq<u8>>,
    now2: i64,
)
    requires
        create_proposal_outcome(
            m,
            authority,
            group,
            proposal_id,
            title,
            description,
            choices,
            voting_start,
            voting_end,
            token_mint,
            now,
        ) is Ok,
    ensures
        create_proposal_outcome(
            create_proposal_outcome(
                m,
                authority,
                group,
                proposal_id,
                title,
                description,
                choices,
                voting_start,
                voting_end,
                token_mint,
                now,
            )->Ok_0,
            authority,
            group,
            proposal_id,
            title2,
            description2,
            choices2,
            voting_start2,
            voting_end2,
            token_mint2,
            now2,
        ) == Err::<Map<Seq<u8>, Seq<u8>>, DaoError>(DaoError::AlreadyExists),
{
}

/// Creating the identity of the same handle twice fails the second time as
/// already existing, whatever wallet and time the second call gives.
pub proof fn lemma_create_user_once(
    m: Map<Seq<u8>, Seq<u8>>,
    telegram_id: i64,
    wallet: Seq<u8>,
    now: i64,
    wallet2: Seq<u8>,
    now2: i64,
)
    requires
        create_user_outcome(m, telegram_id, wallet, now) is Ok,
    ensures
        create_user_outcome(create_user_outcome(m, telegram_id, wallet, now)->Ok_0, telegram_id, wallet2, now2)
            == Err::<Map<Seq<u8>, Seq<u8>>, DaoError>(DaoError::AlreadyExists),
{
}

/// A slot written for a record that fits reads back as that record.
pub proof fn lemma_read_back<R: Wire>(m: Map<Seq<u8>, Seq<u8>>, a: Seq<u8>, tag: Seq<u8>, x: R::Model, cap: nat)
    requires
        tag.len() == 8,
        fits_slot::<R>(x, cap),
    ensures
        load_outcome::<R>(m.insert(a, slot_image::<R>(tag, x, cap)), a, tag) == Ok::<R::Model, DaoError>(x),
{
    let m2 = m.insert(a, slot_image::<R>(tag, x, cap));
    lemma_slot_round_trip::<R>(tag, x, cap);
    let c = choose|c: R::Model| slot_holds::<R>(m2[a], tag, c);
    lemma_slot_unique::<R>(m2[a], tag, c, x);
}

/// A created proposal is found again at the address derived from its group
/// and identifier, as created: its texts, choices and window as given, every
/// counter at zero and no voters; and the group lists it last.
pub proof fn lemma_created_proposal_reads_back(
    m: Map<Seq<u8>, Seq<u8>>,
    authority: Seq<u8>,
    group: Seq<u8>,
    proposal_id: Seq<u8>,
    title: Seq<u8>,
    description: Seq<u8>,
    choices: Seq<Seq<u8>>,
    voting_start: i64,
    voting_end: i64,
    token_mint: Option<Seq<u8>>,
    now: i64,
)
    requires
        create_proposal_outcome(m, authority, group, proposal_id, title, description, choices, voting_start, voting_end, token_mint, now) is Ok,
    ensures
        ({
            let after = create_proposal_outcome(m, authority, group, proposal_id, title, description, choices, voting_start, voting_end, token_mint, now)->Ok_0;
            let pa = found_address(proposal_addr(group, proposal_id));
            let g = load_outcome::<Group>(m, group, kind_tag(RecordKind::Group))->Ok_0;
            &&& load_outcome::<Proposal>(after, pa, kind_tag(RecordKind::Proposal)) == Ok::<ProposalModel, DaoError>(
                fresh_proposal(
                    proposal_id,
                    g.group_id,
                    title,
                    description,
                    choices,
                    voting_start,
                    voting_end,
                    token_mint,
                    authority,
                    now,
                    proposal_addr(group, proposal_id)->Ok_0.1,
                ),
            )
            &&& load_outcome::<Group>(after, group, kind_tag(RecordKind::Group)) == Ok::<GroupModel, DaoError>(
                GroupModel {
                    proposals: g.proposals.push(ProposalInfoModel { proposal_id, pubkey: pa, created_at: now }),
                    ..g
                },
            )
        }),
{
    let (pa, pb) = proposal_addr(group, proposal_id)->Ok_0;
    let g = load_outcome::<Group>(m, group, kind_tag(RecordKind::Group))->Ok_0;
    let p = fresh_proposal(proposal_id, g.group_id, title, description, choices, voting_start, voting_end, token_mint, authority, now, pb);
    let g2 = GroupModel {
        proposals: g.proposals.push(ProposalInfoModel { proposal_id, pubkey: pa, created_at: now }),
        ..g
    };
    let cap = m[group].len();
    let m1 = m.insert(group, slot_image::<Group>(kind_tag(RecordKind::Group), g2, cap));
    lemma_read_back::<Proposal>(m1, pa, kind_tag(RecordKind::Proposal), p, PROPOSAL_SPACE as nat);
    lemma_read_back::<Group>(m, group, kind_tag(RecordKind::Group), g2, cap);
    let after = m1.insert(pa, slot_image::<Proposal>(kind_tag(RecordKind::Proposal), p, PROPOSAL_SPACE as nat));
    assert(pa != group);
    assert(after[group] == m1[group]);
    assert(after.contains_key(group));
}

/// A created group is found again at the address derived from its
/// identifier, as created and with the nonce of that derivation, and the
/// registry lists it last with that address.
pub proof fn lemma_created_group_reads_back(
    m: Map<Seq<u8>, Seq<u8>>,
    authority: Seq<u8>,
    group_id: Seq<u8>,
    name: Seq<u8>,
    description: Seq<u8>,
    now: i64,
)
    requires
        create_group_outcome(m, authority, group_id, name, description, now) is Ok,
    ensures
        ({
            let after = create_group_outcome(m, authority, group_id, name, description, now)->Ok_0;
            let (ga, gb) = group_addr(group_id)->Ok_0;
            let ra = registry_addr()->Ok_0.0;
            let reg = load_outcome::<DaoRegistry>(m, ra, kind_tag(RecordKind::Registry))->Ok_0;
            &&& load_outcome::<Group>(after, ga, kind_tag(RecordKind::Group)) == Ok::<GroupModel, DaoError>(
                fresh_group(group_id, name, description, authority, now, gb),
            )
            &&& load_outcome::<DaoRegistry>(after, ra, kind_tag(RecordKind::Registry)) == Ok::<DaoRegistryModel, DaoError>(
                DaoRegistryModel {
                    groups: reg.groups.push(GroupInfoModel { group_id, authority, pubkey: ga }),
                    ..reg
                },
            )
        }),
{
    let (ga, gb) = group_addr(group_id)->Ok_0;
    let ra = registry_addr()->Ok_0.0;
    let reg = load_outcome::<DaoRegistry>(m, ra, kind_tag(RecordKind::Registry))->Ok_0;
    let g = fresh_group(group_id, name, description, authority, now, gb);
    let reg2 = DaoRegistryModel {
        groups: reg.groups.push(GroupInfoModel { group_id, authority, pubkey: ga }),
        ..reg
    };
    let cap = m[ra].len();
    let m1 = m.insert(ra, slot_image::<DaoRegistry>(kind_tag(RecordKind::Registry), reg2, cap));
    lemma_read_back::<Group>(m1, ga, kind_tag(RecordKind::Group), g, GROUP_SPACE as nat);
    lemma_read_back::<DaoRegistry>(m, ra, kind_tag(RecordKind::Registry), reg2, cap);
    let after = m1.insert(ga, slot_image::<Group>(kind_tag(RecordKind::Group), g, GROUP_SPACE as nat));
    assert(ga != ra);
    assert(after[ra] == m1[ra]);
    assert(after.contains_key(ra));
}

/// Reading results twice, with no write between, reads the same address
/// and gives the same result; after a proposal's creation that result is
/// the proposal, carrying its identifier.
pub proof fn lemma_results_read_twice(
    m: Map<Seq<u8>, Seq<u8>>,
    authority: Seq<u8>,
    group: Seq<u8>,
    proposal_id: Seq<u8>,
    title: Seq<u8>,
    description: Seq<u8>,
    choices: Seq<Seq<u8>>,
    voting_start: i64,
    voting_end: i64,
    token_mint: Option<Seq<u8>>,
    now: i64,
    first: Result<ProposalModel, DaoError>,
    second: Result<ProposalModel, DaoError>,
)
    requires
        create_proposal_outcome(m, authority, group, proposal_id, title, description, choices, voting_start, voting_end, token_mint, now) is Ok,
        ({
            let after = create_proposal_outcome(m, authority, group, proposal_id, title, description, choices, voting_start, voting_end, token_mint, now)->Ok_0;
            let pa = found_address(proposal_addr(group, proposal_id));
            &&& first == load_outcome::<Proposal>(after, pa, kind_tag(RecordKind::Proposal))
            &&& second == load_outcome::<Proposal>(after, pa, kind_tag(RecordKind::Proposal))
        }),
    ensures
        first == second,
        first is Ok,
        first->Ok_0.proposal_id == proposal_id,
{
    lemma_created_proposal_reads_back(m, authority, group, proposal_id, title, description, choices, voting_start, voting_end, token_mint, now);
}

/// Logging in with a handle whose identity was just created finds it and
/// reports the wallet it was created with.
pub proof fn lemma_login_after_create(m: Map<Seq<u8>, Seq<u8>>, telegram_id: i64, wallet: Seq<u8>, now: i64)
    requires
        create_user_outcome(m, telegram_id, wallet, now) is Ok,
    ensures
        login_outcome(create_user_outcome(m, telegram_id, wallet, now)->Ok_0, telegram_id) == Ok::<Seq<u8>, DaoError>(wallet),
{
    let (a, bump) = user_addr(telegram_id)->Ok_0;
    let rec = UserAccountModel { telegram_id, wallet_pubkey: wallet, created_at: now, bump };
    lemma_read_back::<UserAccount>(m, a, kind_tag(RecordKind::UserAccount), rec, USER_ACCOUNT_SPACE as nat);
}

/// An accepted vote on a stored consistent proposal leaves it consistent:
/// the voter was not recorded before and is recorded last now, once, and
/// the counters still sum to the recorded weights.
pub proof fn lemma_stored_vote_consistent(
    m: Map<Seq<u8>, Seq<u8>>,
    proposal: Seq<u8>,
    voter: Seq<u8>,
    choice: u8,
    now: i64,
    voter_balance: u64,
)
    requires
        load_outcome::<Proposal>(m, proposal, kind_tag(RecordKind::Proposal)) is Ok,
        votes_consistent(load_outcome::<Proposal>(m, proposal, kind_tag(RecordKind::Proposal))->Ok_0),
        vote_outcome(m, proposal, voter, choice, now, voter_balance) is Ok,
    ensures
        ({
            let p = load_outcome::<Proposal>(m, proposal, kind_tag(RecordKind::Proposal))->Ok_0;
            let after = vote_outcome(m, proposal, voter, choice, now, voter_balance)->Ok_0;
            let q = load_outcome::<Proposal>(after, proposal, kind_tag(RecordKind::Proposal))->Ok_0;
            &&& load_outcome::<Proposal>(after, proposal, kind_tag(RecordKind::Proposal)) is Ok
            &&& votes_consistent(q)
            &&& !has_voted(p.voters, voter)
            &&& q.voters.len() == p.voters.len() + 1
            &&& q.voters.last().voter == voter
        }),
{
    let p = load_outcome::<Proposal>(m, proposal, kind_tag(RecordKind::Proposal))->Ok_0;
    let w = vote_check(p, voter, choice, now, voter_balance)->Ok_0;
    let q = voted(p, voter, choice, w, now);
    lemma_read_back::<Proposal>(m, proposal, kind_tag(RecordKind::Proposal), q, m[proposal].len());
    let e = VoteEvent { voter, choice, now, voter_balance };
    lemma_vote_step(p, e);
}

/// A vote outside the stored proposal's voting window is refused as not
/// active, and so changes nothing.
pub proof fn lemma_vote_outside_window(
    m: Map<Seq<u8>, Seq<u8>>,
    proposal: Seq<u8>,
    voter: Seq<u8>,
    choice: u8,
    now: i64,
    voter_balance: u64,
)
    requires
        load_outcome::<Proposal>(m, proposal, kind_tag(RecordKind::Proposal)) is Ok,
        ({
            let p = load_outcome::<Proposal>(m, proposal, kind_tag(RecordKind::Proposal))->Ok_0;
            now < p.voting_start || now > p.voting_end
        }),
    ensures
        vote_outcome(m, proposal, voter, choice, now, voter_balance) == Err::<Map<Seq<u8>, Seq<u8>>, DaoError>(
            DaoError::VotingNotActive,
        ),
{
}

} // verus!
