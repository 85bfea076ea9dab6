//! Runs instructions against the ledger: the accounts an instruction names
//! are checked against the roles its operation requires (signers, derived
//! addresses) before any rule on its arguments, and the operation's result
//! is handed back unchanged.
use crate::address::Address;
use crate::codec::{kind_tag, RecordKind};
use crate::error::DaoError;
use crate::events::{
    GroupCreatedEvent, MemberAddedEvent, MemberRemovedEvent, ProposalCreatedEvent,
    UserAccountCreatedEvent, UserLoginEvent, VoteCastEvent,
};
use crate::governance::same_address;
use crate::instruction::{
    decode_instruction, instruction_error, instruction_fits, instruction_wire, Instruction,
    InstructionModel,
};
use crate::ledger::{
    add_member_outcome, create_group_outcome, create_proposal_outcome, create_user_outcome,
    found_address, group_address, group_addr, initialize_outcome, load_outcome, login_outcome, proposal_address,
    proposal_addr, registry_address, registry_addr, remove_member_outcome, user_address,
    user_addr, vote_outcome, vote_weight_of, Ledger,
};
use crate::records::{DaoRegistry, GroupInfo};
use crate::wire::Wire;
use vstd::prelude::*;

verus! {

broadcast use crate::wire::lemma_bytes_model;

/// An account named by an instruction, and whether it signed.
#[derive(Clone, Copy, Debug, PartialEq, Eq)]
pub struct AccountMeta {
    pub pubkey: Address,
    pub is_signer: bool,
}

/// What a successful instruction reports.
#[derive(Clone, Debug, PartialEq, Eq)]
pub enum Outcome {
    Initialized,
    GroupCreated(GroupCreatedEvent),
    ProposalCreated(ProposalCreatedEvent),
    VoteCast(VoteCastEvent),
    MemberAdded(MemberAddedEvent),
    MemberRemoved(MemberRemovedEvent),
    UserAccountCreated(UserAccountCreatedEvent),
    UserLogin(UserLoginEvent),
    Groups(Vec<GroupInfo>),
}

/// `a` is the address derived for a role, or no address could be derived
/// (the operation then fails on its own).
pub open spec fn is_derived(d: Result<(Seq<u8>, u8), DaoError>, a: Seq<u8>) -> bool {
    match d {
        Ok((x, _)) => x == a,
        Err(_) => true,
    }
}

/// The first role that the accounts fail, if any. The accounts of each
/// operation, in order:
/// initialize: registry, authority (signs);
/// create group: group, registry, authority (signs);
/// create proposal: proposal, group, authority (signs);
/// vote: proposal, voter (signs);
/// add or remove member: group, authority (signs);
/// create user: user identity, wallet, payer (signs);
/// login: user identity; list groups: registry.
pub open spec fn role_check(ins: InstructionModel, accounts: Seq<AccountMeta>) -> Option<DaoError> {
    match ins {
        InstructionModel::Initialize => if accounts.len() < 2 {
            Some(DaoError::RoleMismatch)
        } else if !accounts[1].is_signer {
            Some(DaoError::MissingSigner)
        } else if !is_derived(registry_addr(), accounts[0].pubkey@) {
            Some(DaoError::RoleMismatch)
        } else {
            None
        },
        InstructionModel::CreateGroup { group_id, .. } => if accounts.len() < 3 {
            Some(DaoError::RoleMismatch)
        } else if !accounts[2].is_signer {
            Some(DaoError::MissingSigner)
        } else if !is_derived(group_addr(group_id), accounts[0].pubkey@) || !is_derived(
            registry_addr(),
            accounts[1].pubkey@,
        ) {
            Some(DaoError::RoleMismatch)
        } else {
            None
        },
        InstructionModel::CreateProposal { proposal_id, .. } => if accounts.len() < 3 {
            Some(DaoError::RoleMismatch)
        } else if !accounts[2].is_signer {
            Some(DaoError::MissingSigner)
        } else if !is_derived(proposal_addr(accounts[1].pubkey@, proposal_id), accounts[0].pubkey@) {
            Some(DaoError::RoleMismatch)
        } else {
            None
        },
        InstructionModel::VoteOnProposal { .. } => if accounts.len() < 2 {
            Some(DaoError::RoleMismatch)
        } else if !accounts[1].is_signer {
            Some(DaoError::MissingSigner)
        } else {
            None
        },
        InstructionModel::AddGroupMember { .. } => if accounts.len() < 2 {
            Some(DaoError::RoleMismatch)
        } else if !accounts[1].is_signer {
            Some(DaoError::MissingSigner)
        } else {
            None
        },
        InstructionModel::RemoveGroupMember { .. } => if accounts.len() < 2 {
            Some(DaoError::RoleMismatch)
        } else if !accounts[1].is_signer {
            Some(DaoError::MissingSigner)
        } else {
            None
        },
        InstructionModel::CreateUserAccount { telegram_id } => if accounts.len() < 3 {
            Some(DaoError::RoleMismatch)
        } else if !accounts[2].is_signer {
            Some(DaoError::MissingSigner)
        } else if !is_derived(user_addr(telegram_id), accounts[0].pubkey@) {
            Some(DaoError::RoleMismatch)
        } else {
            None
        },
        InstructionModel::LoginUser { telegram_id } => if accounts.len() < 1 {
            Some(DaoError::RoleMismatch)
        } else if !is_derived(user_addr(telegram_id), accounts[0].pubkey@) {
            Some(DaoError::RoleMismatch)
        } else {
            None
        },
        InstructionModel::GetAllGroups => if accounts.len() < 1 {
            Some(DaoError::RoleMismatch)
        } else if !is_derived(registry_addr(), accounts[0].pubkey@) {
            Some(DaoError::RoleMismatch)
        } else {
            None
        },
    }
}

/// The store after the operation of `ins`, or its failure, once the roles
/// have been checked.
pub open spec fn run_outcome(
    m: Map<Seq<u8>, Seq<u8>>,
    ins: InstructionModel,
    accounts: Seq<AccountMeta>,
    now: i64,
    signer_balance: u64,
) -> Result<Map<Seq<u8>, Seq<u8>>, DaoError> {
    match ins {
        InstructionModel::Initialize => initialize_outcome(m, accounts[1].pubkey@),
        InstructionModel::CreateGroup { group_id, name, description } => create_group_outcome(
            m,
            accounts[2].pubkey@,
            group_id,
            name,
            description,
            now,
        ),
        InstructionModel::CreateProposal {
            proposal_id,
            title,
            description,
            choices,
            voting_start,
            voting_end,
            token_mint,
        } => create_proposal_outcome(
            m,
            accounts[2].pubkey@,
            accounts[1].pubkey@,
            proposal_id,
            title,
            description,
            choices,
            voting_start,
            voting_end,
            token_mint,
            now,
        ),
        InstructionModel::VoteOnProposal { choice } => vote_outcome(
            m,
            accounts[0].pubkey@,
            accounts[1].pubkey@,
            choice,
            now,
            signer_balance,
        ),
        InstructionModel::AddGroupMember { member } => add_member_outcome(
            m,
            accounts[0].pubkey@,
            accounts[1].pubkey@,
            member,
            now,
        ),
        InstructionModel::RemoveGroupMember { member } => remove_member_outcome(
            m,
            accounts[0].pubkey@,
            accounts[1].pubkey@,
            member,
        ),
        InstructionModel::CreateUserAccount { telegram_id } => create_user_outcome(
            m,
            telegram_id,
            accounts[1].pubkey@,
            now,
        ),
        InstructionModel::LoginUser { telegram_id } => match login_outcome(m, telegram_id) {
            Ok(_) => Ok(m),
            Err(e) => Err(e),
        },
        InstructionModel::GetAllGroups => match registry_addr() {
            Err(e) => Err(e),
            Ok((a, _)) => match load_outcome::<DaoRegistry>(m, a, kind_tag(RecordKind::Registry)) {
                Ok(_) => Ok(m),
                Err(e) => Err(e),
            },
        },
    }
}

pub open spec fn dispatch_outcome(
    m: Map<Seq<u8>, Seq<u8>>,
    ins: InstructionModel,
    accounts: Seq<AccountMeta>,
    now: i64,
    signer_balance: u64,
) -> Result<Map<Seq<u8>, Seq<u8>>, DaoError> {
    match role_check(ins, accounts) {
        Some(e) => Err(e),
        None => run_outcome(m, ins, accounts, now, signer_balance),
    }
}

/// What a successful instruction reports, as its operation reports it.
pub open spec fn outcome_agrees(
    m: Map<Seq<u8>, Seq<u8>>,
    ins: InstructionModel,
    accounts: Seq<AccountMeta>,
    now: i64,
    signer_balance: u64,
    o: Outcome,
) -> bool {
    match ins {
        InstructionModel::Initialize => o is Initialized,
        InstructionModel::CreateGroup { group_id, .. } => match o {
            Outcome::GroupCreated(ev) => {
                &&& ev.group_id@ == group_id
                &&& ev.authority@ == accounts[2].pubkey@
                &&& ev.group_pubkey@ == found_address(group_addr(group_id))
                &&& ev.timestamp == now
            },
            _ => false,
        },
        InstructionModel::CreateProposal { proposal_id, voting_start, voting_end, .. } => match o {
            Outcome::ProposalCreated(ev) => {
                &&& ev.proposal_id@ == proposal_id
                &&& ev.creator@ == accounts[2].pubkey@
                &&& ev.proposal_pubkey@ == found_address(proposal_addr(accounts[1].pubkey@, proposal_id))
                &&& ev.voting_start == voting_start
                &&& ev.voting_end == voting_end
                &&& ev.timestamp == now
            },
            _ => false,
        },
        InstructionModel::VoteOnProposal { choice } => match o {
            Outcome::VoteCast(ev) => {
                &&& ev.voter@ == accounts[1].pubkey@
                &&& ev.choice == choice
                &&& ev.timestamp == now
                &&& ev.vote_weight == vote_weight_of(
                    m,
                    accounts[0].pubkey@,
                    accounts[1].pubkey@,
                    choice,
                    now,
                    signer_balance,
                )
            },
            _ => false,
        },
        InstructionModel::AddGroupMember { member } => match o {
            Outcome::MemberAdded(ev) => ev.member@ == member && ev.timestamp == now,
            _ => false,
        },
        InstructionModel::RemoveGroupMember { member } => match o {
            Outcome::MemberRemoved(ev) => ev.member@ == member && ev.timestamp == now,
            _ => false,
        },
        InstructionModel::CreateUserAccount { telegram_id } => match o {
            Outcome::UserAccountCreated(ev) => {
                &&& ev.telegram_id == telegram_id
                &&& ev.wallet_pubkey@ == accounts[1].pubkey@
                &&& ev.timestamp == now
            },
            _ => false,
        },
        InstructionModel::LoginUser { telegram_id } => match o {
            Outcome::UserLogin(ev) => {
                &&& ev.telegram_id == telegram_id
                &&& login_outcome(m, telegram_id) == Ok::<Seq<u8>, DaoError>(ev.wallet_pubkey@)
                &&& ev.timestamp == now
            },
            _ => false,
        },
        InstructionModel::GetAllGroups => match o {
            Outcome::Groups(v) => match registry_addr() {
                Ok((a, _)) => match load_outcome::<DaoRegistry>(m, a, kind_tag(RecordKind::Registry)) {
                    Ok(reg) => v.model() == reg.groups,
                    Err(_) => false,
                },
                Err(_) => false,
            },
            _ => false,
        },
    }
}

fn derived_matches(d: &Result<(Address, u8), DaoError>, a: &Address) -> (r: bool)
    ensures
        r == is_derived(crate::ledger::derive_view(*d), a@),
{
    match d {
        Ok((x, _)) => same_address(x, a),
        Err(_) => true,
    }
}

fn check_roles(ins: &Instruction, accounts: &Vec<AccountMeta>) -> (r: Option<DaoError>)
    ensures
        r == role_check(ins@, accounts@),
{
    let n = accounts.len();
    match ins {
        Instruction::Initialize => {
            if n < 2 {
                Some(DaoError::RoleMismatch)
            } else if !accounts[1].is_signer {
                Some(DaoError::MissingSigner)
            } else {
                let d = registry_address();
                let ok = derived_matches(&d, &accounts[0].pubkey);
                if !ok {
                    Some(DaoError::RoleMismatch)
                } else {
                    None
                }
            }
        },
        Instruction::CreateGroup { group_id, .. } => {
            if n < 3 {
                Some(DaoError::RoleMismatch)
            } else if !accounts[2].is_signer {
                Some(DaoError::MissingSigner)
            } else if !derived_matches(&group_address(group_id.as_slice()), &accounts[0].pubkey)
                || !derived_matches(&registry_address(), &accounts[1].pubkey) {
                Some(DaoError::RoleMismatch)
            } else {
                None
            }
        },
        Instruction::CreateProposal { proposal_id, .. } => {
            if n < 3 {
                Some(DaoError::RoleMismatch)
            } else if !accounts[2].is_signer {
                Some(DaoError::MissingSigner)
            } else if !derived_matches(
                &proposal_address(&accounts[1].pubkey, proposal_id.as_slice()),
                &accounts[0].pubkey,
            ) {
                Some(DaoError::RoleMismatch)
            } else {
                None
            }
        },
        Instruction::VoteOnProposal { .. } => {
            if n < 2 {
                Some(DaoError::RoleMismatch)
            } else if !accounts[1].is_signer {
                Some(DaoError::MissingSigner)
            } else {
                None
            }
        },
        Instruction::AddGroupMember { .. } => {
            if n < 2 {
                Some(DaoError::RoleMismatch)
            } else if !accounts[1].is_signer {
                Some(DaoError::MissingSigner)
            } else {
                None
            }
        },
        Instruction::RemoveGroupMember { .. } => {
            if n < 2 {
                Some(DaoError::RoleMismatch)
            } else if !accounts[1].is_signer {
                Some(DaoError::MissingSigner)
            } else {
                None
            }
        },
        Instruction::CreateUserAccount { telegram_id } => {
            if n < 3 {
                Some(DaoError::RoleMismatch)
            } else if !accounts[2].is_signer {
                Some(DaoError::MissingSigner)
            } else if !derived_matches(&user_address(*telegram_id), &accounts[0].pubkey) {
                Some(DaoError::RoleMismatch)
            } else {
                None
            }
        },
        Instruction::LoginUser { telegram_id } => {
            if n < 1 {
                Some(DaoError::RoleMismatch)
            } else if !derived_matches(&user_address(*telegram_id), &accounts[0].pubkey) {
                Some(DaoError::RoleMismatch)
            } else {
                None
            }
        },
        Instruction::GetAllGroups => {
            if n < 1 {
                Some(DaoError::RoleMismatch)
            } else if !derived_matches(&registry_address(), &accounts[0].pubkey) {
                Some(DaoError::RoleMismatch)
            } else {
                None
            }
        },
    }
}

#[verifier::rlimit(100)]
fn run(
    ledger: &mut Ledger,
    ins: Instruction,
    accounts: &Vec<AccountMeta>,
    now: i64,
    signer_balance: u64,
) -> (r: Result<Outcome, DaoError>)
    requires
        role_check(ins@, accounts@) is None,
    ensures
        match run_outcome(old(ledger)@, ins@, accounts@, now, signer_balance) {
            Ok(after) => final(ledger)@ == after && (r matches Ok(o) && outcome_agrees(
                old(ledger)@,
                ins@,
                accounts@,
                now,
                signer_balance,
                o,
            )),
            Err(e) => r == Err::<Outcome, DaoError>(e) && final(ledger)@ == old(ledger)@,
        },
{
    match ins {
        Instruction::Initialize => match ledger.initialize(accounts[1].pubkey) {
            Ok(()) => Ok(Outcome::Initialized),
            Err(e) => Err(e),
        },
        Instruction::CreateGroup { group_id, name, description } => match ledger.create_group(
            accounts[2].pubkey,
            group_id,
            name,
            description,
            now,
        ) {
            Ok(ev) => Ok(Outcome::GroupCreated(ev)),
            Err(e) => Err(e),
        },
        Instruction::CreateProposal {
            proposal_id,
            title,
            description,
            choices,
            voting_start,
            voting_end,
            token_mint,
        } => match ledger.create_proposal(
            accounts[2].pubkey,
            &accounts[1].pubkey,
            proposal_id,
            title,
            description,
            choices,
            voting_start,
            voting_end,
            token_mint,
            now,
        ) {
            Ok(ev) => Ok(Outcome::ProposalCreated(ev)),
            Err(e) => Err(e),
        },
        Instruction::VoteOnProposal { choice } => match ledger.vote_on_proposal(
            &accounts[0].pubkey,
            accounts[1].pubkey,
            choice,
            now,
            signer_balance,
        ) {
            Ok(ev) => Ok(Outcome::VoteCast(ev)),
            Err(e) => Err(e),
        },
        Instruction::AddGroupMember { member } => match ledger.add_group_member(
            &accounts[0].pubkey,
            accounts[1].pubkey,
            member,
            now,
        ) {
            Ok(ev) => Ok(Outcome::MemberAdded(ev)),
            Err(e) => Err(e),
        },
        Instruction::RemoveGroupMember { member } => match ledger.remove_group_member(
            &accounts[0].pubkey,
            accounts[1].pubkey,
            member,
            now,
        ) {
            Ok(ev) => Ok(Outcome::MemberRemoved(ev)),
            Err(e) => Err(e),
        },
        Instruction::CreateUserAccount { telegram_id } => match ledger.create_user_account(
            telegram_id,
            accounts[1].pubkey,
            now,
        ) {
            Ok(ev) => Ok(Outcome::UserAccountCreated(ev)),
            Err(e) => Err(e),
        },
        Instruction::LoginUser { telegram_id } => match ledger.login_user(telegram_id, now) {
            Ok(ev) => Ok(Outcome::UserLogin(ev)),
            Err(e) => Err(e),
        },
        Instruction::GetAllGroups => match ledger.get_all_groups() {
            Ok(groups) => Ok(Outcome::Groups(groups)),
            Err(e) => Err(e),
        },
    }
}



/// Decodes the instruction in `data` and runs it with the named accounts at
/// time `now`; `signer_balance` is the voter's native balance, read by the
/// execution environment. Bytes that are no instruction fail before the
/// accounts are looked at, and the accounts before the arguments.
#[verifier::rlimit(100)]
pub fn dispatch(
    ledger: &mut Ledger,
    data: &[u8],
    accounts: &Vec<AccountMeta>,
    now: i64,
    signer_balance: u64,
) -> (r: Result<Outcome, DaoError>)
    ensures
        forall|m: InstructionModel|
            instruction_fits(m) && #[trigger] instruction_wire(m) == data@ ==> match dispatch_outcome(
                old(ledger)@,
                m,
                accounts@,
                now,
                signer_balance,
            ) {
                Ok(after) => final(ledger)@ == after && (r matches Ok(o) && outcome_agrees(
                    old(ledger)@,
                    m,
                    accounts@,
                    now,
                    signer_balance,
                    o,
                )),
                Err(e) => r == Err::<Outcome, DaoError>(e) && final(ledger)@ == old(ledger)@,
            },
        !(exists|m: InstructionModel| instruction_fits(m) && #[trigger] instruction_wire(m) == data@)
            ==> r == Err::<Outcome, DaoError>(instruction_error(data@)) && final(ledger)@ == old(ledger)@,
{
    let ins = match decode_instruction(data) {
        Ok(ins) => ins,
        Err(e) => return Err(e),
    };
    assert(instruction_fits(ins@) && instruction_wire(ins@) == data@);
    match check_roles(&ins, accounts) {
        Some(e) => return Err(e),
        None => {},
    }
    run(ledger, ins, accounts, now, signer_balance)
}

} // verus!
