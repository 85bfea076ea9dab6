use solana_dao::address::Address;
use solana_dao::client::{can_pay_vote_fee, collect_decoded, html_escape, identity_seed, registry_groups_or_empty};
use solana_dao::codec::{discriminator, encode_slot, RecordKind};
use solana_dao::records::{DaoRegistry, Group, GroupInfo};

fn addr(b: u8) -> Address {
    Address { bytes: [b; 32] }
}

/// Account data without a stored length: discriminator, payload,
/// zero padding.
fn account_data<R: solana_dao::wire::Wire>(kind: RecordKind, r: &R, pad: usize) -> Vec<u8> {
    let slot = encode_slot(&discriminator(kind), r, 4096).unwrap();
    let len = u32::from_le_bytes([slot[8], slot[9], slot[10], slot[11]]) as usize;
    let mut out = slot[0..8].to_vec();
    out.extend_from_slice(&slot[12..12 + len]);
    out.extend(std::iter::repeat(0u8).take(pad));
    out
}

fn group(id: &str, bump: u8) -> Group {
    Group {
        group_id: id.as_bytes().to_vec(),
        name: b"name".to_vec(),
        description: b"desc".to_vec(),
        authority: addr(1),
        proposals: vec![],
        members: vec![],
        created_at: 1_700_000_000,
        bump,
    }
}

#[test]
fn html_escape_replaces_markup() {
    let s = "a<b>&\"c\" 'd' é";
    let expected = "a&lt;b&gt;&amp;&quot;c&quot; &#x27;d&#x27; é";
    assert_eq!(html_escape(s.as_bytes()), expected.as_bytes().to_vec());
    assert_eq!(html_escape(b""), Vec::<u8>::new());
    assert_eq!(html_escape(b"plain"), b"plain".to_vec());
}

#[test]
fn identity_seed_mixes_hash_handle_and_secret() {
    let seed = identity_seed(0x0102_0304_0506_0708, 1, b"ab");
    assert_eq!(&seed[0..8], &[8, 7, 6, 5, 4, 3, 2, 1]);
    assert_eq!(&seed[8..16], &[96, 98, 97, 98, 97, 98, 97, 98]);
    assert_eq!(seed[16], 8 ^ 1 ^ b'a');
    assert_eq!(seed[17], 7 ^ b'b');
    assert_eq!(seed[31], 1 ^ b'b');
    assert_eq!(identity_seed(0x0102_0304_0506_0708, 1, b"ab"), seed);
    assert_ne!(identity_seed(0x0102_0304_0506_0708, 2, b"ab"), seed);
}

#[test]
fn fetched_groups_skip_unreadable_accounts() {
    let g1 = group("g1", 255);
    let g2 = group("g2", 0);
    let g3 = group("g3", 7);
    let accounts = vec![
        Some(account_data(RecordKind::Group, &g1, 100)),
        None,
        Some(vec![1, 2, 3]),
        Some(account_data(RecordKind::Group, &g2, 100)),
        Some(account_data(RecordKind::Group, &g3, 0)),
    ];
    let got: Vec<Group> = collect_decoded(&accounts);
    assert_eq!(got, vec![g1, g3]);
}

#[test]
fn registry_listing_degrades_to_empty() {
    let reg = DaoRegistry {
        authority: addr(1),
        groups: vec![GroupInfo { group_id: b"g1".to_vec(), authority: addr(1), pubkey: addr(2) }],
        bump: 254,
    };
    let data = account_data(RecordKind::Registry, &reg, 50);
    assert_eq!(registry_groups_or_empty(&Some(data)), reg.groups);
    assert_eq!(registry_groups_or_empty(&None), vec![]);
    assert_eq!(registry_groups_or_empty(&Some(vec![0u8; 4])), vec![]);
}

#[test]
fn vote_fee_threshold() {
    assert!(!can_pay_vote_fee(0));
    assert!(!can_pay_vote_fee(4_999));
    assert!(can_pay_vote_fee(5_000));
    assert!(can_pay_vote_fee(u64::MAX));
}
