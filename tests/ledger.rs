use solana_dao::address::{derive_address, Address};
use solana_dao::codec::{
    decode_account_data, decode_slot, discriminator, encode_slot, live_length, RecordKind,
};
use solana_dao::dispatch::{dispatch, AccountMeta, Outcome};
use solana_dao::error::{DaoError, DecodeError};
use solana_dao::governance::{
    cast_vote, check_group, native_mint_address, new_proposal, proposal_state, tally, vote_weight,
    ProposalState,
};
use solana_dao::instruction::{decode_instruction, encode_instruction, Instruction};
use solana_dao::ledger::{
    group_address, proposal_address, registry_address, user_address, Ledger, PROPOSAL_SPACE,
};
use solana_dao::records::{
    DaoRegistry, Group, GroupInfo, GroupMember, Proposal, ProposalInfo, UserAccount, VoterInfo,
};

const NOW: i64 = 1_700_000_000;

fn addr(b: u8) -> Address {
    Address { bytes: [b; 32] }
}

fn text(s: &str) -> Vec<u8> {
    s.as_bytes().to_vec()
}

fn choices(n: usize) -> Vec<Vec<u8>> {
    (0..n).map(|i| format!("choice {}", i).into_bytes()).collect()
}

struct World {
    ledger: Ledger,
    owner: Address,
    group: Address,
    proposal: Address,
}

fn world_with_group() -> World {
    let owner = addr(7);
    let mut ledger = Ledger::new();
    ledger.initialize(owner).unwrap();
    let ev = ledger.create_group(owner, text("g1"), text("g1"), text("desc"), NOW).unwrap();
    let (group, _) = group_address(b"g1").unwrap();
    assert_eq!(ev.group_pubkey, group);
    let (proposal, _) = proposal_address(&group, b"p1").unwrap();
    World { ledger, owner, group, proposal }
}

fn world_with_proposal() -> World {
    let mut w = world_with_group();
    let ev = w
        .ledger
        .create_proposal(
            w.owner,
            &w.group,
            text("p1"),
            text("title"),
            text("description"),
            vec![text("A"), text("B")],
            NOW + 10,
            NOW + 3600,
            Some(native_mint_address()),
            NOW,
        )
        .unwrap();
    assert_eq!(ev.proposal_pubkey, w.proposal);
    w
}

#[test]
fn derivation_is_deterministic() {
    let parts = vec![text("g1")];
    let a = derive_address(b"group", &parts).unwrap();
    let b = derive_address(b"group", &parts).unwrap();
    assert_eq!(a, b);
    assert!(a.1 >= 1);
    let c = derive_address(b"group", &vec![text("g2")]).unwrap();
    assert_ne!(a.0, c.0);
    assert_eq!(group_address(b"g1").unwrap(), a);
}

#[test]
fn derivation_fails_on_overlong_seed() {
    let parts = vec![vec![1u8; 33]];
    assert_eq!(derive_address(b"group", &parts), Err(solana_dao::address::DeriveError::DerivationExhausted));
}

#[test]
fn proposal_ids_alias_on_first_eight_bytes() {
    let g = addr(3);
    assert_eq!(proposal_address(&g, b"abcdefgh-1"), proposal_address(&g, b"abcdefgh-2"));
    assert_ne!(proposal_address(&g, b"abcdefgh"), proposal_address(&g, b"abcdefgi"));
}

#[test]
fn scenario_vote_and_tally() {
    let mut w = world_with_proposal();
    let u1 = addr(11);
    let ev = w.ledger.vote_on_proposal(&w.proposal, u1, 0, NOW + 20, 5).unwrap();
    assert_eq!(ev.vote_weight, 5);
    assert_eq!(ev.group_id, text("g1"));
    assert_eq!(ev.proposal_id, text("p1"));
    let t = w.ledger.tally_proposal(&w.proposal, NOW + 20).unwrap();
    assert_eq!(t.choice_votes, vec![5, 0]);
    assert_eq!(t.total_voters, 1);
    assert_eq!(t.total_votes, 5);
    assert!(!t.is_closed);
    let g = w.ledger.get_group(&w.group).unwrap();
    assert_eq!(g.proposals.len(), 1);
    assert_eq!(g.proposals[0].proposal_id, text("p1"));
    assert_eq!(g.proposals[0].pubkey, w.proposal);
}

#[test]
fn scenario_second_vote_is_refused() {
    let mut w = world_with_proposal();
    let u1 = addr(11);
    w.ledger.vote_on_proposal(&w.proposal, u1, 0, NOW + 20, 5).unwrap();
    let before = w.ledger.slot(&w.proposal).unwrap();
    assert_eq!(
        w.ledger.vote_on_proposal(&w.proposal, u1, 1, NOW + 30, 5),
        Err(DaoError::AlreadyVoted)
    );
    assert_eq!(w.ledger.slot(&w.proposal).unwrap(), before);
    let t = w.ledger.tally_proposal(&w.proposal, NOW + 30).unwrap();
    assert_eq!(t.choice_votes, vec![5, 0]);
    assert_eq!(t.total_voters, 1);
}

#[test]
fn scenario_votes_outside_window_are_refused() {
    let mut w = world_with_proposal();
    let u1 = addr(11);
    assert_eq!(
        w.ledger.vote_on_proposal(&w.proposal, u1, 0, NOW + 9, 5),
        Err(DaoError::VotingNotActive)
    );
    assert_eq!(
        w.ledger.vote_on_proposal(&w.proposal, u1, 0, NOW + 3601, 5),
        Err(DaoError::VotingNotActive)
    );
    let t = w.ledger.tally_proposal(&w.proposal, NOW + 3601).unwrap();
    assert_eq!(t.choice_votes, vec![0, 0]);
    assert_eq!(t.total_voters, 0);
    assert!(t.is_closed);
    // both bounds are inside the window
    w.ledger.vote_on_proposal(&w.proposal, u1, 1, NOW + 10, 5).unwrap();
    w.ledger.vote_on_proposal(&w.proposal, addr(12), 0, NOW + 3600, 2).unwrap();
    assert_eq!(w.ledger.tally_proposal(&w.proposal, NOW).unwrap().choice_votes, vec![2, 5]);
}

#[test]
fn scenario_choice_count_bounds() {
    let mut w = world_with_group();
    for n in [1usize, 11] {
        let r = w.ledger.create_proposal(
            w.owner,
            &w.group,
            text("p1"),
            text("t"),
            text("d"),
            choices(n),
            NOW + 10,
            NOW + 3600,
            None,
            NOW,
        );
        assert_eq!(r, Err(DaoError::InvalidChoiceCount));
        assert_eq!(w.ledger.slot(&w.proposal), None);
    }
    w.ledger
        .create_proposal(w.owner, &w.group, text("p1"), text("t"), text("d"), choices(2), NOW + 10, NOW + 3600, None, NOW)
        .unwrap();
    assert!(w.ledger.slot(&w.proposal).is_some());
}

#[test]
fn create_twice_fails_whatever_the_payload() {
    let mut w = world_with_proposal();
    let r = w.ledger.create_proposal(
        w.owner,
        &w.group,
        text("p1"),
        text("other"),
        text("other"),
        choices(3),
        NOW + 100,
        NOW + 200,
        None,
        NOW,
    );
    assert_eq!(r, Err(DaoError::AlreadyExists));
    assert_eq!(w.ledger.create_group(w.owner, text("g1"), text("x"), text("y"), NOW), Err(DaoError::AlreadyExists));
    // existence is checked before the texts
    assert_eq!(
        w.ledger.create_group(addr(2), text("g1"), vec![b'n'; 101], vec![b'd'; 501], NOW),
        Err(DaoError::AlreadyExists)
    );
    assert_eq!(
        w.ledger.create_group(w.owner, vec![b'g'; 51], text("n"), text("d"), NOW),
        Err(DaoError::GroupIdTooLong)
    );
    assert_eq!(w.ledger.initialize(addr(9)), Err(DaoError::AlreadyExists));
    let mut l = Ledger::new();
    l.create_user_account(42, addr(5), NOW).unwrap();
    assert_eq!(l.create_user_account(42, addr(6), NOW + 1), Err(DaoError::AlreadyExists));
    let a = addr(1);
    l.create_slot(&a, vec![1, 2, 3]).unwrap();
    assert_eq!(l.create_slot(&a, vec![9]), Err(DaoError::AlreadyExists));
    assert_eq!(l.slot(&a), Some(vec![1, 2, 3]));
}

#[test]
fn proposal_rules() {
    let mut w = world_with_group();
    let mk = |l: &mut Ledger, owner: Address, g: &Address, id: &str, title: Vec<u8>, desc: Vec<u8>, s: i64, e: i64| {
        l.create_proposal(owner, g, text(id), title, desc, choices(2), s, e, None, NOW)
    };
    let (o, g) = (w.owner, w.group);
    assert_eq!(mk(&mut w.ledger, o, &g, &"x".repeat(51), text("t"), text("d"), NOW + 1, NOW + 2), Err(DaoError::ProposalIdTooLong));
    assert_eq!(mk(&mut w.ledger, o, &g, "p2", vec![b't'; 201], text("d"), NOW + 1, NOW + 2), Err(DaoError::TitleTooLong));
    assert_eq!(mk(&mut w.ledger, o, &g, "p2", text("t"), vec![b'd'; 1001], NOW + 1, NOW + 2), Err(DaoError::DescriptionTooLong));
    assert_eq!(mk(&mut w.ledger, o, &g, "p2", text("t"), text("d"), NOW + 2, NOW + 2), Err(DaoError::InvalidVotingPeriod));
    let r = w.ledger.create_proposal(o, &g, text("p2"), text("t"), text("d"), vec![text("A"), vec![]], NOW + 1, NOW + 2, None, NOW);
    assert_eq!(r, Err(DaoError::EmptyChoiceLabel));
    let (p2, _) = proposal_address(&g, b"p2").unwrap();
    assert_eq!(w.ledger.slot(&p2), None);
    assert_eq!(mk(&mut w.ledger, o, &g, "p2", text("t"), text("d"), NOW, NOW + 2), Err(DaoError::VotingStartInPast));
    assert_eq!(mk(&mut w.ledger, addr(99), &g, "p2", text("t"), text("d"), NOW + 1, NOW + 2), Err(DaoError::Unauthorized));
    assert_eq!(mk(&mut w.ledger, o, &addr(98), "p2", text("t"), text("d"), NOW + 1, NOW + 2), Err(DaoError::NotFound));
    // the longest texts with ten choices do not fit in the proposal slot
    let r = w.ledger.create_proposal(o, &g, vec![b'i'; 50], vec![b't'; 200], vec![b'd'; 1000], choices(10), NOW + 1, NOW + 2, None, NOW);
    assert_eq!(r, Err(DaoError::RecordTooLarge));
    assert!(PROPOSAL_SPACE < 1538 + 12);
}

#[test]
fn group_rules() {
    let mut l = Ledger::new();
    assert_eq!(l.create_group(addr(1), text("g"), text("n"), text("d"), NOW), Err(DaoError::NotFound));
    l.initialize(addr(1)).unwrap();
    assert_eq!(l.create_group(addr(1), text("g"), vec![b'n'; 101], text("d"), NOW), Err(DaoError::NameTooLong));
    assert_eq!(l.create_group(addr(1), text("g"), text("n"), vec![b'd'; 501], NOW), Err(DaoError::DescriptionTooLong));
    l.create_group(addr(1), text("g"), vec![b'n'; 100], vec![b'd'; 500], NOW).unwrap();
    let groups = l.get_all_groups().unwrap();
    assert_eq!(groups.len(), 1);
    assert_eq!(groups[0].group_id, text("g"));
    assert_eq!(groups[0].authority, addr(1));
}

#[test]
fn registry_slot_bounds_the_group_list() {
    let mut l = Ledger::new();
    l.initialize(addr(1)).unwrap();
    // each entry of a 32-byte identifier takes 100 bytes: 23 fit (the
    // identifiers differ in their first byte, so their addresses differ)
    for i in 0..23u8 {
        let mut id = vec![b'z'; 32];
        id[0] = b'a' + i;
        l.create_group(addr(1), id, text("n"), text("d"), NOW).unwrap();
    }
    let long_id = vec![b'y'; 32];
    assert_eq!(l.create_group(addr(1), long_id.clone(), text("n"), text("d"), NOW), Err(DaoError::RecordTooLarge));
    let (ga, _) = group_address(&long_id).unwrap();
    assert_eq!(l.slot(&ga), None);
    assert_eq!(l.get_all_groups().unwrap().len(), 23);
}

#[test]
fn membership() {
    let mut w = world_with_group();
    let m = addr(20);
    w.ledger.add_group_member(&w.group, w.owner, m, NOW).unwrap();
    assert_eq!(w.ledger.add_group_member(&w.group, w.owner, m, NOW), Err(DaoError::MemberAlreadyExists));
    assert_eq!(w.ledger.add_group_member(&w.group, addr(21), addr(22), NOW), Err(DaoError::Unauthorized));
    let g = w.ledger.get_group(&w.group).unwrap();
    assert_eq!(g.members, vec![GroupMember { pubkey: m, joined_at: NOW }]);
    w.ledger.remove_group_member(&w.group, w.owner, m, NOW).unwrap();
    assert_eq!(w.ledger.remove_group_member(&w.group, w.owner, m, NOW), Err(DaoError::MemberNotFound));
    assert!(w.ledger.get_group(&w.group).unwrap().members.is_empty());
}

#[test]
fn user_accounts() {
    let mut l = Ledger::new();
    assert_eq!(l.login_user(7, NOW), Err(DaoError::NotFound));
    let ev = l.create_user_account(7, addr(4), NOW).unwrap();
    assert_eq!(ev.wallet_pubkey, addr(4));
    let login = l.login_user(7, NOW + 5).unwrap();
    assert_eq!(login.wallet_pubkey, addr(4));
    assert_eq!(login.timestamp, NOW + 5);
    // an identity record of another handle stored where handle 8 lives
    let (a8, _) = user_address(8).unwrap();
    let other = UserAccount { telegram_id: 9, wallet_pubkey: addr(4), created_at: NOW, bump: 1 };
    let bytes = encode_slot(&discriminator(RecordKind::UserAccount), &other, 61).unwrap();
    l.create_slot(&a8, bytes).unwrap();
    assert_eq!(l.login_user(8, NOW), Err(DaoError::InvalidTelegramId));
}

#[test]
fn corrupt_slot_is_reported() {
    let mut l = Ledger::new();
    let (ra, _) = registry_address().unwrap();
    l.create_slot(&ra, vec![0u8; 40]).unwrap();
    assert_eq!(l.get_registry(), Err(DaoError::InvalidRecord));
    assert_eq!(l.create_group(addr(1), text("g"), text("n"), text("d"), NOW), Err(DaoError::InvalidRecord));
}

fn sample_proposal(n_choices: usize, max_texts: bool, bump: u8) -> Proposal {
    let (id, title, desc) = if max_texts {
        (vec![b'i'; 50], vec![b't'; 200], vec![b'd'; 1000])
    } else {
        (text("p"), text("t"), text("d"))
    };
    let mut p = new_proposal(id, vec![b'g'; 50], title, desc, choices(n_choices), 10, 20, Some(addr(9)), addr(8), 0, bump);
    p.voters.push(VoterInfo { voter: addr(3), choice: 1, vote_weight: 0, timestamp: -5 });
    p.choice_votes[1] = u64::MAX;
    p
}

#[test]
fn slot_round_trip_every_kind() {
    let cap = 4096;
    let reg = DaoRegistry {
        authority: addr(1),
        groups: vec![GroupInfo { group_id: vec![b'g'; 50], authority: addr(2), pubkey: addr(3) }],
        bump: 0,
    };
    let tag = discriminator(RecordKind::Registry);
    let b = encode_slot(&tag, &reg, cap).unwrap();
    assert_eq!(b.len(), cap);
    assert_eq!(decode_slot::<DaoRegistry>(&b, &tag), Ok(reg));

    let group = Group {
        group_id: vec![b'g'; 50],
        name: vec![b'n'; 100],
        description: vec![b'd'; 500],
        authority: addr(4),
        proposals: vec![ProposalInfo { proposal_id: text("p"), pubkey: addr(5), created_at: i64::MIN }],
        members: vec![GroupMember { pubkey: addr(6), joined_at: 0 }],
        created_at: -1,
        bump: 0,
    };
    let tag = discriminator(RecordKind::Group);
    let b = encode_slot(&tag, &group, cap).unwrap();
    assert_eq!(decode_slot::<Group>(&b, &tag), Ok(group));

    for n in [2usize, 10] {
        for max in [false, true] {
            let p = sample_proposal(n, max, 0);
            let tag = discriminator(RecordKind::Proposal);
            let b = encode_slot(&tag, &p, cap).unwrap();
            assert_eq!(decode_slot::<Proposal>(&b, &tag), Ok(p));
        }
    }

    let u = UserAccount { telegram_id: -42, wallet_pubkey: addr(7), created_at: 0, bump: 0 };
    let tag = discriminator(RecordKind::UserAccount);
    let b = encode_slot(&tag, &u, 61).unwrap();
    assert_eq!(b.len(), 61);
    assert_eq!(decode_slot::<UserAccount>(&b, &tag), Ok(u));
}

#[test]
fn slot_layout_and_errors() {
    let u = UserAccount { telegram_id: 1, wallet_pubkey: addr(2), created_at: 3, bump: 4 };
    let tag = discriminator(RecordKind::UserAccount);
    let b = encode_slot(&tag, &u, 64).unwrap();
    assert_eq!(&b[0..8], &[211, 33, 136, 16, 186, 110, 242, 127]);
    assert_eq!(&b[8..12], &[49, 0, 0, 0]);
    assert_eq!(&b[12..20], &[1, 0, 0, 0, 0, 0, 0, 0]);
    assert_eq!(b[60], 4);
    assert_eq!(&b[61..], &[0, 0, 0]);
    assert_eq!(encode_slot(&tag, &u, 60), None);
    let other = discriminator(RecordKind::Group);
    assert_eq!(decode_slot::<UserAccount>(&b, &other), Err(DecodeError::KindMismatch));
    assert_eq!(decode_slot::<UserAccount>(&b[..30], &tag), Err(DecodeError::Truncated));
    assert_eq!(decode_slot::<UserAccount>(&b[..5], &tag), Err(DecodeError::Truncated));
    let mut longer = b.clone();
    longer[8] = 50;
    assert_eq!(decode_slot::<UserAccount>(&longer, &tag), Err(DecodeError::TrailingGarbage));
}

#[test]
fn padded_account_data_loses_trailing_zero() {
    // account data without a stored length: discriminator, payload, zero padding
    let mut with_bump = vec![0u8; 8];
    let u = UserAccount { telegram_id: 5, wallet_pubkey: addr(2), created_at: 3, bump: 254 };
    let slot = encode_slot(&discriminator(RecordKind::UserAccount), &u, 61).unwrap();
    with_bump.extend_from_slice(&slot[12..]);
    with_bump.extend_from_slice(&[0u8; 16]);
    assert_eq!(live_length(&with_bump[8..]), 49);
    assert_eq!(decode_account_data::<UserAccount>(&with_bump), Ok(u));

    let z = UserAccount { telegram_id: 5, wallet_pubkey: addr(2), created_at: 3, bump: 0 };
    let slot = encode_slot(&discriminator(RecordKind::UserAccount), &z, 61).unwrap();
    let mut zero_bump = vec![0u8; 8];
    zero_bump.extend_from_slice(&slot[12..]);
    zero_bump.extend_from_slice(&[0u8; 16]);
    assert_eq!(decode_account_data::<UserAccount>(&zero_bump), Err(DecodeError::Truncated));
    // the length-prefixed slot reads it back exactly
    assert_eq!(decode_slot::<UserAccount>(&slot, &discriminator(RecordKind::UserAccount)), Ok(z));
    assert_eq!(live_length(&[0u8; 4]), 4);
    assert_eq!(live_length(&[]), 0);
}

#[test]
fn voting_rules_on_records() {
    let mut p = new_proposal(text("p"), text("g"), text("t"), text("d"), choices(2), 10, 20, None, addr(1), 0, 1);
    assert_eq!(proposal_state(&p, 9), ProposalState::Scheduled);
    assert_eq!(proposal_state(&p, 10), ProposalState::Open);
    assert_eq!(proposal_state(&p, 21), ProposalState::Closed);
    assert_eq!(cast_vote(&mut p, addr(2), 2, 15, 100), Err(DaoError::InvalidChoice));
    let v = cast_vote(&mut p, addr(2), 1, 15, 100).unwrap();
    assert_eq!(v.vote_weight, 1);
    assert_eq!(tally(&p, 15).choice_votes, vec![0, 1]);
    let native = Some(native_mint_address());
    assert_eq!(vote_weight(&native, 0), 0);
    assert_eq!(vote_weight(&native, 77), 77);
    // any other asset weighs the placeholder one
    assert_eq!(vote_weight(&Some(addr(3)), 77), 1);
    assert_eq!(vote_weight(&None, 77), 1);
    p.token_mint = native;
    assert_eq!(cast_vote(&mut p, addr(3), 0, 15, 0), Err(DaoError::NoVotingPower));
    cast_vote(&mut p, addr(3), 0, 15, u64::MAX).unwrap();
    assert_eq!(cast_vote(&mut p, addr(4), 0, 15, 1), Err(DaoError::VoteCountOverflow));
    let t = tally(&p, 15);
    assert_eq!(t.total_votes, u64::MAX as u128 + 1);
    assert_eq!(t.total_voters, 2);
}

#[test]
fn votes_keep_sums_consistent() {
    let mut w = world_with_proposal();
    let weights = [3u64, 1, 4, 1, 5];
    for (i, wgt) in weights.iter().enumerate() {
        w.ledger.vote_on_proposal(&w.proposal, addr(30 + i as u8), (i % 2) as u8, NOW + 50, *wgt).unwrap();
        let _ = w.ledger.vote_on_proposal(&w.proposal, addr(30 + i as u8), 0, NOW + 51, 9);
    }
    let p = w.ledger.get_proposal(&w.proposal).unwrap();
    let sum_votes: u64 = p.choice_votes.iter().sum();
    let sum_weights: u64 = p.voters.iter().map(|v| v.vote_weight).sum();
    assert_eq!(sum_votes, 14);
    assert_eq!(sum_votes, sum_weights);
    assert_eq!(p.voters.len(), 5);
}

#[test]
fn instruction_round_trip_and_dispatch() {
    let ins = Instruction::CreateProposal {
        proposal_id: text("p1"),
        title: text("t"),
        description: text("d"),
        choices: vec![text("A"), text("B")],
        voting_start: NOW + 10,
        voting_end: NOW + 3600,
        token_mint: Some(native_mint_address()),
    };
    let bytes = encode_instruction(&ins).unwrap();
    assert_eq!(&bytes[0..8], &[132, 116, 68, 174, 216, 160, 198, 22]);
    assert_eq!(&bytes[8..14], &[2, 0, 0, 0, b'p', b'1']);
    assert_eq!(decode_instruction(&bytes), Ok(ins));
    let vote = encode_instruction(&Instruction::VoteOnProposal { choice: 1 }).unwrap();
    assert_eq!(vote, vec![188, 239, 13, 88, 119, 199, 251, 119, 1]);
    assert_eq!(decode_instruction(&[1, 2, 3]), Err(DaoError::UnknownDiscriminator));
    assert_eq!(decode_instruction(&[0u8; 12]), Err(DaoError::UnknownDiscriminator));
    assert_eq!(decode_instruction(&vote[..8]), Err(DaoError::InvalidInstructionData));

    let owner = addr(7);
    let mut l = Ledger::new();
    let (ra, _) = registry_address().unwrap();
    let init = encode_instruction(&Instruction::Initialize).unwrap();
    let unsigned = vec![AccountMeta { pubkey: ra, is_signer: false }, AccountMeta { pubkey: owner, is_signer: false }];
    assert_eq!(dispatch(&mut l, &init, &unsigned, NOW, 0), Err(DaoError::MissingSigner));
    let wrong = vec![AccountMeta { pubkey: addr(1), is_signer: false }, AccountMeta { pubkey: owner, is_signer: true }];
    assert_eq!(dispatch(&mut l, &init, &wrong, NOW, 0), Err(DaoError::RoleMismatch));
    let accounts = vec![AccountMeta { pubkey: ra, is_signer: false }, AccountMeta { pubkey: owner, is_signer: true }];
    assert_eq!(dispatch(&mut l, &init, &accounts, NOW, 0), Ok(Outcome::Initialized));
    let list = encode_instruction(&Instruction::GetAllGroups).unwrap();
    assert_eq!(dispatch(&mut l, &list, &accounts[..1].to_vec(), NOW, 0), Ok(Outcome::Groups(vec![])));
    assert_eq!(dispatch(&mut l, &[9u8; 9], &accounts, NOW, 0), Err(DaoError::UnknownDiscriminator));

    let (ga, _) = group_address(b"g1").unwrap();
    let create = encode_instruction(&Instruction::CreateGroup { group_id: text("g1"), name: text("n"), description: text("d") }).unwrap();
    let group_accounts = vec![
        AccountMeta { pubkey: ga, is_signer: false },
        AccountMeta { pubkey: ra, is_signer: false },
        AccountMeta { pubkey: owner, is_signer: true },
    ];
    match dispatch(&mut l, &create, &group_accounts, NOW, 0) {
        Ok(Outcome::GroupCreated(ev)) => assert_eq!(ev.group_pubkey, ga),
        other => panic!("unexpected {:?}", other),
    }
    match dispatch(&mut l, &list, &accounts[..1].to_vec(), NOW, 0) {
        Ok(Outcome::Groups(v)) => {
            assert_eq!(v.len(), 1);
            assert_eq!(v[0].group_id, text("g1"));
            assert_eq!(v[0].pubkey, ga);
        }
        other => panic!("unexpected {:?}", other),
    }
}

#[test]
fn error_messages() {
    assert_eq!(DaoError::AlreadyVoted.message(), "User has already voted");
    assert_eq!(DaoError::InvalidChoiceCount.message(), "Invalid choice count (must be between 2 and 10)");
}

#[test]
fn group_text_limits() {
    assert_eq!(check_group(&vec![b'g'; 51], &text("n"), &text("d")), Err(DaoError::GroupIdTooLong));
    assert_eq!(check_group(&vec![b'g'; 50], &vec![b'n'; 100], &vec![b'd'; 500]), Ok(()));
    assert_eq!(check_group(&text("g"), &vec![b'n'; 101], &text("d")), Err(DaoError::NameTooLong));
    // the texts are checked before the address is derived; only the first
    // eight bytes of the identifier enter the address
    let mut l = Ledger::new();
    l.initialize(addr(1)).unwrap();
    assert_eq!(l.create_group(addr(1), vec![b'g'; 51], text("n"), text("d"), NOW), Err(DaoError::GroupIdTooLong));
    l.create_group(addr(1), vec![b'g'; 50], text("n"), text("d"), NOW).unwrap();
    assert_eq!(group_address(&[b'g'; 50]), group_address(b"gggggggg"));
    assert_eq!(l.create_group(addr(1), vec![b'g'; 33], text("n"), text("d"), NOW), Err(DaoError::AlreadyExists));
}
