//! What a client of the ledger computes around its calls: reading fetched
//! account lists (skipping what cannot be read), the per-user signing seed,
//! and escaping text for HTML display.
use crate::codec::{decode_account_data, live_len};
use crate::records::{DaoRegistry, GroupInfo};
use crate::wire::{le8, models, push_le8, Wire};
use vstd::prelude::*;

verus! {

/// The least native balance, in lamports, that pays a vote's fee.
pub const MIN_VOTE_BALANCE: u64 = 5000;

/// Whether a voter with `balance` lamports can pay a vote's fee.
pub fn can_pay_vote_fee(balance: u64) -> (r: bool)
    ensures
        r == (balance >= MIN_VOTE_BALANCE),
{
    balance >= MIN_VOTE_BALANCE
}

/// `data` is account data (discriminator, payload, zero padding) that reads
/// as `m`.
pub open spec fn account_decodes<R: Wire>(data: Seq<u8>, m: R::Model) -> bool {
    &&& data.len() >= 8
    &&& R::fits(m)
    &&& R::wire(m) == data.skip(8).take(live_len(data.skip(8)) as int)
}

/// The records read from fetched accounts, in order; an account that could
/// not be fetched (`None`) or read is left out.
pub open spec fn decoded_list<R: Wire>(accounts: Seq<Option<Vec<u8>>>) -> Seq<R::Model>
    decreases accounts.len(),
{
    if accounts.len() == 0 {
        Seq::empty()
    } else {
        let rest = decoded_list::<R>(accounts.drop_last());
        match accounts.last() {
            Some(d) => if exists|m: R::Model| account_decodes::<R>(d@, m) {
                rest.push(choose|m: R::Model| account_decodes::<R>(d@, m))
            } else {
                rest
            },
            None => rest,
        }
    }
}

/// Reads every fetched account that holds a record of kind `R`.
pub fn collect_decoded<R: Wire>(accounts: &Vec<Option<Vec<u8>>>) -> (r: Vec<R>)
    ensures
        models(r@) == decoded_list::<R>(accounts@),
{
    let mut out: Vec<R> = Vec::new();
    let mut i: usize = 0;
    while i < accounts.len()
        invariant
            i <= accounts@.len(),
            models(out@) == decoded_list::<R>(accounts@.take(i as int)),
        decreases accounts@.len() - i,
    {
        assert(accounts@.take(i + 1).drop_last() =~= accounts@.take(i as int));
        let ghost before = out@;
        match &accounts[i] {
            Some(data) => {
                match decode_account_data::<R>(data.as_slice()) {
                    Ok(v) => {
                        let ghost m = choose|m: R::Model| account_decodes::<R>(data@, m);
                        assert(account_decodes::<R>(data@, v.model()));
                        assert(account_decodes::<R>(data@, m));
                        out.push(v);
                        assert(models(out@) =~= models(before).push(v.model()));
                    },
                    Err(_) => {},
                }
            },
            None => {},
        }
        i += 1;
    }
    assert(accounts@.take(accounts@.len() as int) =~= accounts@);
    out
}

/// The groups listed in fetched registry data; none when the registry
/// could not be fetched or read.
pub fn registry_groups_or_empty(data: &Option<Vec<u8>>) -> (r: Vec<GroupInfo>)
    ensures
        match data {
            Some(d) => if exists|m: <DaoRegistry as Wire>::Model| account_decodes::<DaoRegistry>(d@, m) {
                models(r@) == (choose|m: <DaoRegistry as Wire>::Model| account_decodes::<DaoRegistry>(d@, m)).groups
            } else {
                r@.len() == 0
            },
            None => r@.len() == 0,
        },
{
    match data {
        Some(d) => match decode_account_data::<DaoRegistry>(d.as_slice()) {
            Ok(reg) => {
                let ghost m = choose|m: <DaoRegistry as Wire>::Model| account_decodes::<DaoRegistry>(d@, m);
                assert(account_decodes::<DaoRegistry>(d@, reg@));
                assert(account_decodes::<DaoRegistry>(d@, m));
                reg.groups
            },
            Err(_) => Vec::new(),
        },
        None => Vec::new(),
    }
}

/// Byte `i` of the signing seed of a user handle: the eight bytes of the
/// keyed hash, then the handle's bytes mixed with the secret, then all three
/// mixed.
pub open spec fn seed_byte(hash: Seq<u8>, id: Seq<u8>, secret: Seq<u8>, i: int) -> u8 {
    if i < 8 {
        hash[i]
    } else if i < 16 {
        id[i - 8] ^ secret[(i - 8) % (secret.len() as int)]
    } else {
        hash[i % 8] ^ id[i % 8] ^ secret[i % (secret.len() as int)]
    }
}

/// The 32-byte signing seed of the handle `telegram_id`, from the keyed
/// hash `hash` of the handle and the secret, and the secret itself.
pub fn identity_seed(hash: u64, telegram_id: i64, secret: &[u8]) -> (r: [u8; 32])
    requires
        secret@.len() > 0,
    ensures
        forall|i: int|
            0 <= i < 32 ==> r@[i] == seed_byte(
                le8(hash),
                le8(#[verifier::truncate] (telegram_id as u64)),
                secret@,
                i,
            ),
{
    let mut h: Vec<u8> = Vec::new();
    push_le8(&mut h, hash);
    let mut id: Vec<u8> = Vec::new();
    push_le8(&mut id, #[verifier::truncate] (telegram_id as u64));
    assert(h@ =~= le8(hash));
    let n = secret.len();
    let mut seed = [0u8; 32];
    let mut i: usize = 0;
    while i < 32
        invariant
            i <= 32,
            n == secret@.len(),
            n > 0,
            h@ == le8(hash),
            id@ == le8(#[verifier::truncate] (telegram_id as u64)),
            h@.len() == 8,
            id@.len() == 8,
            seed@.len() == 32,
            forall|j: int| 0 <= j < i ==> seed@[j] == seed_byte(h@, id@, secret@, j),
        decreases 32 - i,
    {
        let b = if i < 8 {
            h[i]
        } else if i < 16 {
            id[i - 8] ^ secret[(i - 8) % n]
        } else {
            h[i % 8] ^ id[i % 8] ^ secret[i % n]
        };
        seed[i] = b;
        i += 1;
    }
    seed
}

/// The HTML text of a byte: the five markup characters are replaced by
/// entities.
pub open spec fn escape_byte(b: u8) -> Seq<u8> {
    if b == 38 {
        seq![38u8, 97, 109, 112, 59]
    } else if b == 60 {
        seq![38u8, 108, 116, 59]
    } else if b == 62 {
        seq![38u8, 103, 116, 59]
    } else if b == 34 {
        seq![38u8, 113, 117, 111, 116, 59]
    } else if b == 39 {
        seq![38u8, 35, 120, 50, 55, 59]
    } else {
        seq![b]
    }
}

pub open spec fn escaped(s: Seq<u8>) -> Seq<u8>
    decreases s.len(),
{
    if s.len() == 0 {
        Seq::empty()
    } else {
        escaped(s.drop_last()) + escape_byte(s.last())
    }
}

/// Escapes `&`, `<`, `>`, `"` and `'` in UTF-8 text for HTML. The five are
/// single bytes that occur in no multi-byte character, so escaping byte by
/// byte escapes character by character.
pub fn html_escape(text: &[u8]) -> (r: Vec<u8>)
    ensures
        r@ == escaped(text@),
{
    let mut out: Vec<u8> = Vec::new();
    let mut i: usize = 0;
    while i < text.len()
        invariant
            i <= text@.len(),
            out@ == escaped(text@.take(i as int)),
        decreases text@.len() - i,
    {
        let b = text[i];
        let ghost before = out@;
        if b == 38 {
            out.push(38u8);
            out.push(97u8);
            out.push(109u8);
            out.push(112u8);
            out.push(59u8);
        } else if b == 60 {
            out.push(38u8);
            out.push(108u8);
            out.push(116u8);
            out.push(59u8);
        } else if b == 62 {
            out.push(38u8);
            out.push(103u8);
            out.push(116u8);
            out.push(59u8);
        } else if b == 34 {
            out.push(38u8);
            out.push(113u8);
            out.push(117u8);
            out.push(111u8);
            out.push(116u8);
            out.push(59u8);
        } else if b == 39 {
            out.push(38u8);
            out.push(35u8);
            out.push(120u8);
            out.push(50u8);
            out.push(55u8);
            out.push(59u8);
        } else {
            out.push(b);
        }
        assert(out@ =~= before + escape_byte(b));
        assert(text@.take(i + 1).drop_last() =~= text@.take(i as int));
        i += 1;
    }
    assert(text@.take(text@.len() as int) =~= text@);
    out
}

} // verus!
