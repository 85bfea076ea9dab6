//! Instructions: an 8-byte discriminator naming the operation, then the
//! operation's arguments in the field format. The set of operations is
//! closed.
use crate::address::Address;
use crate::error::DaoError;
use crate::wire::{prefix_at, Wire};
use vstd::prelude::*;

verus! {

broadcast use crate::wire::lemma_bytes_model;

/// An operation with its arguments.
#[derive(Clone, Debug, PartialEq, Eq)]
pub enum Instruction {
    Initialize,
    CreateGroup { group_id: Vec<u8>, name: Vec<u8>, description: Vec<u8> },
    CreateProposal { proposal_id: Vec<u8>, title: Vec<u8>, description: Vec<u8>, choices: Vec<Vec<u8>>, voting_start: i64, voting_end: i64, token_mint: Option<Address> },
    VoteOnProposal { choice: u8 },
    AddGroupMember { member: Address },
    RemoveGroupMember { member: Address },
    CreateUserAccount { telegram_id: i64 },
    LoginUser { telegram_id: i64 },
    GetAllGroups,
}

/// What an [`Instruction`] holds, as plain values.
pub enum InstructionModel {
    Initialize,
    CreateGroup { group_id: Seq<u8>, name: Seq<u8>, description: Seq<u8> },
    CreateProposal { proposal_id: Seq<u8>, title: Seq<u8>, description: Seq<u8>, choices: Seq<Seq<u8>>, voting_start: i64, voting_end: i64, token_mint: Option<Seq<u8>> },
    VoteOnProposal { choice: u8 },
    AddGroupMember { member: Seq<u8> },
    RemoveGroupMember { member: Seq<u8> },
    CreateUserAccount { telegram_id: i64 },
    LoginUser { telegram_id: i64 },
    GetAllGroups,
}

impl View for Instruction {
    type V = InstructionModel;

    open spec fn view(&self) -> InstructionModel {
        match self {
            Instruction::Initialize => InstructionModel::Initialize,
            Instruction::CreateGroup { group_id, name, description } => InstructionModel::CreateGroup { group_id: group_id.model(), name: name.model(), description: description.model() },
            Instruction::CreateProposal { proposal_id, title, description, choices, voting_start, voting_end, token_mint } => InstructionModel::CreateProposal { proposal_id: proposal_id.model(), title: title.model(), description: description.model(), choices: choices.model(), voting_start: voting_start.model(), voting_end: voting_end.model(), token_mint: token_mint.model() },
            Instruction::VoteOnProposal { choice } => InstructionModel::VoteOnProposal { choice: choice.model() },
            Instruction::AddGroupMember { member } => InstructionModel::AddGroupMember { member: member.model() },
            Instruction::RemoveGroupMember { member } => InstructionModel::RemoveGroupMember { member: member.model() },
            Instruction::CreateUserAccount { telegram_id } => InstructionModel::CreateUserAccount { telegram_id: telegram_id.model() },
            Instruction::LoginUser { telegram_id } => InstructionModel::LoginUser { telegram_id: telegram_id.model() },
            Instruction::GetAllGroups => InstructionModel::GetAllGroups,
        }
    }
}

/// The discriminator of each operation.
pub open spec fn instruction_tag(m: InstructionModel) -> Seq<u8> {
    match m {
        InstructionModel::Initialize => seq![175u8, 175, 109, 31, 13, 152, 155, 237],
        InstructionModel::CreateGroup { .. } => seq![79u8, 60, 158, 134, 61, 199, 56, 248],
        InstructionModel::CreateProposal { .. } => seq![132u8, 116, 68, 174, 216, 160, 198, 22],
        InstructionModel::VoteOnProposal { .. } => seq![188u8, 239, 13, 88, 119, 199, 251, 119],
        InstructionModel::AddGroupMember { .. } => seq![253u8, 53, 18, 244, 16, 23, 52, 3],
        InstructionModel::RemoveGroupMember { .. } => seq![101u8, 122, 244, 208, 7, 78, 126, 172],
        InstructionModel::CreateUserAccount { .. } => seq![146u8, 68, 100, 69, 63, 46, 182, 199],
        InstructionModel::LoginUser { .. } => seq![90u8, 4, 186, 228, 135, 161, 83, 37],
        InstructionModel::GetAllGroups => seq![36u8, 242, 63, 169, 39, 110, 210, 109],
    }
}

/// `t` is the discriminator of some operation.
pub open spec fn known_tag(t: Seq<u8>) -> bool {
    t == seq![175u8, 175, 109, 31, 13, 152, 155, 237]
        || t == seq![79u8, 60, 158, 134, 61, 199, 56, 248]
        || t == seq![132u8, 116, 68, 174, 216, 160, 198, 22]
        || t == seq![188u8, 239, 13, 88, 119, 199, 251, 119]
        || t == seq![253u8, 53, 18, 244, 16, 23, 52, 3]
        || t == seq![101u8, 122, 244, 208, 7, 78, 126, 172]
        || t == seq![146u8, 68, 100, 69, 63, 46, 182, 199]
        || t == seq![90u8, 4, 186, 228, 135, 161, 83, 37]
        || t == seq![36u8, 242, 63, 169, 39, 110, 210, 109]
}

pub open spec fn instruction_fits(m: InstructionModel) -> bool {
    match m {
        InstructionModel::Initialize => true,
        InstructionModel::CreateGroup { group_id, name, description } => <((Vec<u8>, Vec<u8>), Vec<u8>) as Wire>::fits(((group_id, name), description)),
        InstructionModel::CreateProposal { proposal_id, title, description, choices, voting_start, voting_end, token_mint } => <((((((Vec<u8>, Vec<u8>), Vec<u8>), Vec<Vec<u8>>), i64), i64), Option<Address>) as Wire>::fits(((((((proposal_id, title), description), choices), voting_start), voting_end), token_mint)),
        InstructionModel::VoteOnProposal { choice } => <u8 as Wire>::fits(choice),
        InstructionModel::AddGroupMember { member } => <Address as Wire>::fits(member),
        InstructionModel::RemoveGroupMember { member } => <Address as Wire>::fits(member),
        InstructionModel::CreateUserAccount { telegram_id } => <i64 as Wire>::fits(telegram_id),
        InstructionModel::LoginUser { telegram_id } => <i64 as Wire>::fits(telegram_id),
        InstructionModel::GetAllGroups => true,
    }
}

/// The arguments of an instruction in the field format.
pub open spec fn instruction_payload(m: InstructionModel) -> Seq<u8> {
    match m {
        InstructionModel::Initialize => Seq::empty(),
        InstructionModel::CreateGroup { group_id, name, description } => <((Vec<u8>, Vec<u8>), Vec<u8>) as Wire>::wire(((group_id, name), description)),
        InstructionModel::CreateProposal { proposal_id, title, description, choices, voting_start, voting_end, token_mint } => <((((((Vec<u8>, Vec<u8>), Vec<u8>), Vec<Vec<u8>>), i64), i64), Option<Address>) as Wire>::wire(((((((proposal_id, title), description), choices), voting_start), voting_end), token_mint)),
        InstructionModel::VoteOnProposal { choice } => <u8 as Wire>::wire(choice),
        InstructionModel::AddGroupMember { member } => <Address as Wire>::wire(member),
        InstructionModel::RemoveGroupMember { member } => <Address as Wire>::wire(member),
        InstructionModel::CreateUserAccount { telegram_id } => <i64 as Wire>::wire(telegram_id),
        InstructionModel::LoginUser { telegram_id } => <i64 as Wire>::wire(telegram_id),
        InstructionModel::GetAllGroups => Seq::empty(),
    }
}

/// The bytes of an instruction.
pub open spec fn instruction_wire(m: InstructionModel) -> Seq<u8> {
    instruction_tag(m) + instruction_payload(m)
}

/// Why bytes that are no instruction fail: an unknown discriminator, or
/// arguments that do not match the operation.
pub open spec fn instruction_error(data: Seq<u8>) -> DaoError {
    if data.len() < 8 || !known_tag(data.take(8)) {
        DaoError::UnknownDiscriminator
    } else {
        DaoError::InvalidInstructionData
    }
}

/// The arguments after the discriminator, read whole.
fn read_args<T: Wire>(data: &[u8]) -> (r: Option<T>)
    requires
        data@.len() >= 8,
    ensures
        r matches Some(v) ==> T::fits(v.model()) && data@ == data@.take(8) + T::wire(v.model()),
        forall|w: T::Model|
            T::fits(w) && data@ == data@.take(8) + #[trigger] T::wire(w) ==> (r matches Some(v)
                && v.model() == w),
{
    proof {
        assert forall|w: T::Model| T::fits(w) && data@ == data@.take(8) + #[trigger] T::wire(w) implies prefix_at(
            T::wire(w),
            data@,
            8,
        ) && 8 + T::wire(w).len() == data@.len() by {
            assert(data@.subrange(8, 8 + T::wire(w).len() as int) =~= T::wire(w));
        }
    }
    match T::read_from(data, 8) {
        Some((v, end)) => {
            if end != data.len() {
                return None;
            }
            assert(data@ =~= data@.take(8) + T::wire(v.model()));
            Some(v)
        },
        None => None,
    }
}

fn tag_is(data: &[u8], tag: [u8; 8]) -> (r: bool)
    requires
        data@.len() >= 8,
    ensures
        r == (data@.take(8) == tag@),
{
    let mut i: usize = 0;
    while i < 8
        invariant
            i <= 8,
            data@.len() >= 8,
            forall|j: int| 0 <= j < i ==> data@[j] == tag@[j],
        decreases 8 - i,
    {
        if data[i] != tag[i] {
            assert(data@.take(8)[i as int] != tag@[i as int]);
            return false;
        }
        i += 1;
    }
    assert(data@.take(8) =~= tag@);
    true
}

/// Reads an instruction. It succeeds exactly when `data` is the bytes of
/// an instruction, and returns that instruction.
#[verifier::rlimit(100)]
pub fn decode_instruction(data: &[u8]) -> (r: Result<Instruction, DaoError>)
    ensures
        r matches Ok(ins) ==> instruction_fits(ins@) && instruction_wire(ins@) == data@,
        forall|m: InstructionModel|
            instruction_fits(m) && #[trigger] instruction_wire(m) == data@ ==> (r matches Ok(ins)
                && ins@ == m),
        r is Err ==> r == Err::<Instruction, DaoError>(instruction_error(data@)),
{
    if data.len() < 8 {
        return Err(DaoError::UnknownDiscriminator);
    }
    proof {
        assert forall|m: InstructionModel| instruction_fits(m) && #[trigger] instruction_wire(m) == data@ implies data@.take(8)
            == instruction_tag(m) && data@ == data@.take(8) + instruction_payload(m) by {
            assert(data@.take(8) =~= instruction_tag(m));
        }
    }
    if tag_is(data, [175u8, 175, 109, 31, 13, 152, 155, 237]) {
        assert(data@.take(8) == seq![175u8, 175, 109, 31, 13, 152, 155, 237]);
        if data.len() != 8 {
            return Err(DaoError::InvalidInstructionData);
        }
        assert(data@ =~= seq![175u8, 175, 109, 31, 13, 152, 155, 237] + Seq::<u8>::empty());
        return Ok(Instruction::Initialize);
    }
    if tag_is(data, [79u8, 60, 158, 134, 61, 199, 56, 248]) {
        assert(data@.take(8) == seq![79u8, 60, 158, 134, 61, 199, 56, 248]);
        return match read_args::<((Vec<u8>, Vec<u8>), Vec<u8>)>(data) {
            Some(((group_id, name), description)) => Ok(Instruction::CreateGroup { group_id, name, description }),
            None => Err(DaoError::InvalidInstructionData),
        };
    }
    if tag_is(data, [132u8, 116, 68, 174, 216, 160, 198, 22]) {
        assert(data@.take(8) == seq![132u8, 116, 68, 174, 216, 160, 198, 22]);
        return match read_args::<((((((Vec<u8>, Vec<u8>), Vec<u8>), Vec<Vec<u8>>), i64), i64), Option<Address>)>(data) {
            Some(((((((proposal_id, title), description), choices), voting_start), voting_end), token_mint)) => Ok(Instruction::CreateProposal { proposal_id, title, description, choices, voting_start, voting_end, token_mint }),
            None => Err(DaoError::InvalidInstructionData),
        };
    }
    if tag_is(data, [188u8, 239, 13, 88, 119, 199, 251, 119]) {
        assert(data@.take(8) == seq![188u8, 239, 13, 88, 119, 199, 251, 119]);
        return match read_args::<u8>(data) {
            Some(choice) => Ok(Instruction::VoteOnProposal { choice }),
            None => Err(DaoError::InvalidInstructionData),
        };
    }
    if tag_is(data, [253u8, 53, 18, 244, 16, 23, 52, 3]) {
        assert(data@.take(8) == seq![253u8, 53, 18, 244, 16, 23, 52, 3]);
        return match read_args::<Address>(data) {
            Some(member) => Ok(Instruction::AddGroupMember { member }),
            None => Err(DaoError::InvalidInstructionData),
        };
    }
    if tag_is(data, [101u8, 122, 244, 208, 7, 78, 126, 172]) {
        assert(data@.take(8) == seq![101u8, 122, 244, 208, 7, 78, 126, 172]);
        return match read_args::<Address>(data) {
            Some(member) => Ok(Instruction::RemoveGroupMember { member }),
            None => Err(DaoError::InvalidInstructionData),
        };
    }
    if tag_is(data, [146u8, 68, 100, 69, 63, 46, 182, 199]) {
        assert(data@.take(8) == seq![146u8, 68, 100, 69, 63, 46, 182, 199]);
        return match read_args::<i64>(data) {
            Some(telegram_id) => Ok(Instruction::CreateUserAccount { telegram_id }),
            None => Err(DaoError::InvalidInstructionData),
        };
    }
    if tag_is(data, [90u8, 4, 186, 228, 135, 161, 83, 37]) {
        assert(data@.take(8) == seq![90u8, 4, 186, 228, 135, 161, 83, 37]);
        return match read_args::<i64>(data) {
            Some(telegram_id) => Ok(Instruction::LoginUser { telegram_id }),
            None => Err(DaoError::InvalidInstructionData),
        };
    }
    if tag_is(data, [36u8, 242, 63, 169, 39, 110, 210, 109]) {
        assert(data@.take(8) == seq![36u8, 242, 63, 169, 39, 110, 210, 109]);
        if data.len() != 8 {
            return Err(DaoError::InvalidInstructionData);
        }
        assert(data@ =~= seq![36u8, 242, 63, 169, 39, 110, 210, 109] + Seq::<u8>::empty());
        return Ok(Instruction::GetAllGroups);
    }
    Err(DaoError::UnknownDiscriminator)
}

/// The bytes of `ins`, or `None` when an argument is too long to be
/// written.
#[verifier::rlimit(100)]
pub fn encode_instruction(ins: &Instruction) -> (r: Option<Vec<u8>>)
    ensures
        r is Some <==> instruction_fits(ins@),
        r matches Some(b) ==> b@ == instruction_wire(ins@),
{
    let mut out: Vec<u8> = Vec::new();
    match ins {
        Instruction::Initialize => {
            let tag: [u8; 8] = [175u8, 175, 109, 31, 13, 152, 155, 237];
            push_all(&mut out, &tag);
            assert(out@ == seq![175u8, 175, 109, 31, 13, 152, 155, 237]);
            assert(out@ =~= seq![175u8, 175, 109, 31, 13, 152, 155, 237] + Seq::<u8>::empty());
        },
        Instruction::CreateGroup { group_id, name, description } => {
            let tag: [u8; 8] = [79u8, 60, 158, 134, 61, 199, 56, 248];
            push_all(&mut out, &tag);
            assert(out@ == seq![79u8, 60, 158, 134, 61, 199, 56, 248]);
            if !group_id.fits_check() {
                return None;
            }
            if !name.fits_check() {
                return None;
            }
            if !description.fits_check() {
                return None;
            }
            group_id.write_to(&mut out);
            name.write_to(&mut out);
            description.write_to(&mut out);
            assert(out@ =~= seq![79u8, 60, 158, 134, 61, 199, 56, 248] + <((Vec<u8>, Vec<u8>), Vec<u8>) as Wire>::wire(((group_id.model(), name.model()), description.model())));
        },
        Instruction::CreateProposal { proposal_id, title, description, choices, voting_start, voting_end, token_mint } => {
            let tag: [u8; 8] = [132u8, 116, 68, 174, 216, 160, 198, 22];
            push_all(&mut out, &tag);
            assert(out@ == seq![132u8, 116, 68, 174, 216, 160, 198, 22]);
            if !proposal_id.fits_check() {
                return None;
            }
            if !title.fits_check() {
                return None;
            }
            if !description.fits_check() {
                return None;
            }
            if !choices.fits_check() {
                return None;
            }
            if !voting_start.fits_check() {
                return None;
            }
            if !voting_end.fits_check() {
                return None;
            }
            if !token_mint.fits_check() {
                return None;
            }
            proposal_id.write_to(&mut out);
            title.write_to(&mut out);
            description.write_to(&mut out);
            choices.write_to(&mut out);
            voting_start.write_to(&mut out);
            voting_end.write_to(&mut out);
            token_mint.write_to(&mut out);
            assert(out@ =~= seq![132u8, 116, 68, 174, 216, 160, 198, 22] + <((((((Vec<u8>, Vec<u8>), Vec<u8>), Vec<Vec<u8>>), i64), i64), Option<Address>) as Wire>::wire(((((((proposal_id.model(), title.model()), description.model()), choices.model()), voting_start.model()), voting_end.model()), token_mint.model())));
        },
        Instruction::VoteOnProposal { choice } => {
            let tag: [u8; 8] = [188u8, 239, 13, 88, 119, 199, 251, 119];
            push_all(&mut out, &tag);
            assert(out@ == seq![188u8, 239, 13, 88, 119, 199, 251, 119]);
            if !choice.fits_check() {
                return None;
            }
            choice.write_to(&mut out);
            assert(out@ =~= seq![188u8, 239, 13, 88, 119, 199, 251, 119] + <u8 as Wire>::wire(choice.model()));
        },
        Instruction::AddGroupMember { member } => {
            let tag: [u8; 8] = [253u8, 53, 18, 244, 16, 23, 52, 3];
            push_all(&mut out, &tag);
            assert(out@ == seq![253u8, 53, 18, 244, 16, 23, 52, 3]);
            if !member.fits_check() {
                return None;
            }
            member.write_to(&mut out);
            assert(out@ =~= seq![253u8, 53, 18, 244, 16, 23, 52, 3] + <Address as Wire>::wire(member.model()));
        },
        Instruction::RemoveGroupMember { member } => {
            let tag: [u8; 8] = [101u8, 122, 244, 208, 7, 78, 126, 172];
            push_all(&mut out, &tag);
            assert(out@ == seq![101u8, 122, 244, 208, 7, 78, 126, 172]);
            if !member.fits_check() {
                return None;
            }
            member.write_to(&mut out);
            assert(out@ =~= seq![101u8, 122, 244, 208, 7, 78, 126, 172] + <Address as Wire>::wire(member.model()));
        },
        Instruction::CreateUserAccount { telegram_id } => {
            let tag: [u8; 8] = [146u8, 68, 100, 69, 63, 46, 182, 199];
            push_all(&mut out, &tag);
            assert(out@ == seq![146u8, 68, 100, 69, 63, 46, 182, 199]);
            if !telegram_id.fits_check() {
                return None;
            }
            telegram_id.write_to(&mut out);
            assert(out@ =~= seq![146u8, 68, 100, 69, 63, 46, 182, 199] + <i64 as Wire>::wire(telegram_id.model()));
        },
        Instruction::LoginUser { telegram_id } => {
            let tag: [u8; 8] = [90u8, 4, 186, 228, 135, 161, 83, 37];
            push_all(&mut out, &tag);
            assert(out@ == seq![90u8, 4, 186, 228, 135, 161, 83, 37]);
            if !telegram_id.fits_check() {
                return None;
            }
            telegram_id.write_to(&mut out);
            assert(out@ =~= seq![90u8, 4, 186, 228, 135, 161, 83, 37] + <i64 as Wire>::wire(telegram_id.model()));
        },
        Instruction::GetAllGroups => {
            let tag: [u8; 8] = [36u8, 242, 63, 169, 39, 110, 210, 109];
            push_all(&mut out, &tag);
            assert(out@ == seq![36u8, 242, 63, 169, 39, 110, 210, 109]);
            assert(out@ =~= seq![36u8, 242, 63, 169, 39, 110, 210, 109] + Seq::<u8>::empty());
        },
    }
    Some(out)
}

fn push_all(out: &mut Vec<u8>, bytes: &[u8; 8])
    ensures
        final(out)@ == old(out)@ + bytes@,
{
    let mut i: usize = 0;
    while i < 8
        invariant
            i <= 8,
            out@ =~= old(out)@ + bytes@.take(i as int),
        decreases 8 - i,
    {
        out.push(bytes[i]);
        i += 1;
        assert(out@ =~= old(out)@ + bytes@.take(i as int));
    }
    assert(bytes@.take(8) =~= bytes@);
}

} // verus!
