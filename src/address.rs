//! Deterministic derivation of record addresses from a namespace and seed
//! parts, through the program-derived-address search of `anchor_lang`.
use anchor_lang::prelude::Pubkey;
use vstd::prelude::*;

verus! {

/// A 32-byte address; it is also the key of a storage slot.
#[derive(Clone, Copy, Debug, PartialEq, Eq, Hash)]
pub struct Address {
    pub bytes: [u8; 32],
}

impl View for Address {
    type V = Seq<u8>;

    open spec fn view(&self) -> Seq<u8> {
        self.bytes@
    }
}

/// Why an address could not be derived.
#[derive(Clone, Copy, Debug, PartialEq, Eq)]
pub enum DeriveError {
    /// No nonce in the searched range gave an address off the curve, or the
    /// seeds were over the limits of the search.
    DerivationExhausted,
}

/// The most seed parts a derivation takes, the nonce not counted.
pub const MAX_SEEDS: usize = 15;

/// The longest seed part a derivation takes.
pub const MAX_SEED_LEN: usize = 32;

/// How many leading bytes of a caller-chosen identifier enter a seed.
pub const ID_PREFIX_LEN: usize = 8;

/// What the program-derived-address search returns for the given seeds under
/// the given program key: the address and its nonce, or nothing.
pub uninterp spec fn program_address(seeds: Seq<Seq<u8>>, program: Seq<u8>) -> Option<(Seq<u8>, u8)>;

pub open spec fn seeds_in_limits(seeds: Seq<Seq<u8>>) -> bool {
    &&& seeds.len() <= MAX_SEEDS
    &&& forall|i: int| 0 <= i < seeds.len() ==> #[trigger] seeds[i].len() <= MAX_SEED_LEN
}

pub open spec fn seeds_view(seeds: Seq<Vec<u8>>) -> Seq<Seq<u8>> {
    seeds.map_values(|s: Vec<u8>| s@)
}

/// Relies on `Pubkey::try_find_program_address` (solana-pubkey, re-exported by
/// anchor_lang): a pure function of the seeds and the program key, which
/// searches the nonces from 255 down to 1 and gives `None` when none
/// qualifies or when the seeds are over the limits (at most 15 parts beside
/// the nonce, each of at most 32 bytes).
#[verifier::external_body]
fn try_find_program_address(seeds: &Vec<Vec<u8>>, program: &Address) -> (r: Option<(Address, u8)>)
    ensures
        r matches Some((a, n)) ==> program_address(seeds_view(seeds@), program@) == Some((a@, n)),
        r is None ==> program_address(seeds_view(seeds@), program@) is None,
        r matches Some((a, n)) ==> seeds_in_limits(seeds_view(seeds@)) && n >= 1,
{
    let parts: Vec<&[u8]> = seeds.iter().map(|s| s.as_slice()).collect();
    let key = Pubkey::new_from_array(program.bytes);
    Pubkey::try_find_program_address(&parts, &key).map(|(a, n)| (Address { bytes: a.to_bytes() }, n))
}

/// The key of the program that owns every record of the ledger.
pub open spec fn program_key() -> Seq<u8> {
    seq![
        56u8, 21, 227, 32, 115, 74, 192, 203, 205, 184, 84, 127, 76, 84, 185, 156,
        56, 198, 92, 59, 163, 55, 75, 214, 32, 240, 217, 159, 227, 88, 59, 88,
    ]
}

pub fn program_id() -> (r: Address)
    ensures
        r@ == program_key(),
{
    let r = Address {
        bytes: [
            56u8, 21, 227, 32, 115, 74, 192, 203, 205, 184, 84, 127, 76, 84, 185, 156,
            56, 198, 92, 59, 163, 55, 75, 214, 32, 240, 217, 159, 227, 88, 59, 88,
        ],
    };
    assert(r@ =~= program_key());
    r
}

/// The seed list of a derivation: the namespace followed by the parts.
pub open spec fn seed_list(namespace: Seq<u8>, parts: Seq<Seq<u8>>) -> Seq<Seq<u8>> {
    seq![namespace] + parts
}

/// The outcome of deriving from a namespace and parts under the program key.
pub open spec fn derived(namespace: Seq<u8>, parts: Seq<Seq<u8>>) -> Result<(Seq<u8>, u8), DeriveError> {
    match program_address(seed_list(namespace, parts), program_key()) {
        Some(found) => Ok(found),
        None => Err(DeriveError::DerivationExhausted),
    }
}

pub open spec fn derive_result_view(r: Result<(Address, u8), DeriveError>) -> Result<(Seq<u8>, u8), DeriveError> {
    match r {
        Ok((a, n)) => Ok((a@, n)),
        Err(e) => Err(e),
    }
}

/// Derives the address and nonce of the record named by `namespace` and
/// `parts`; the same inputs always give the same outcome.
pub fn derive_address(namespace: &[u8], parts: &Vec<Vec<u8>>) -> (r: Result<(Address, u8), DeriveError>)
    ensures
        derive_result_view(r) == derived(namespace@, seeds_view(parts@)),
{
    let mut seeds: Vec<Vec<u8>> = Vec::new();
    assert(namespace@.take(namespace@.len() as int) =~= namespace@);
    seeds.push(prefix_copy(namespace, namespace.len()));
    assert(seeds_view(parts@).take(0) =~= Seq::<Seq<u8>>::empty());
    let mut i: usize = 0;
    while i < parts.len()
        invariant
            i <= parts@.len(),
            seeds_view(seeds@) =~= seq![namespace@] + seeds_view(parts@).take(i as int),
        decreases parts@.len() - i,
    {
        let part = prefix_copy(parts[i].as_slice(), parts[i].len());
        assert(parts@[i as int]@.take(parts@[i as int]@.len() as int) =~= parts@[i as int]@);
        let ghost before = seeds@;
        seeds.push(part);
        assert(seeds_view(seeds@) =~= seeds_view(before).push(parts@[i as int]@));
        i += 1;
        assert(seeds_view(parts@).take(i as int) =~= seeds_view(parts@).take(i - 1) + seq![parts@[i - 1]@]);
    }
    assert(seeds_view(parts@).take(parts@.len() as int) =~= seeds_view(parts@));
    let program = program_id();
    match try_find_program_address(&seeds, &program) {
        Some(found) => Ok(found),
        None => Err(DeriveError::DerivationExhausted),
    }
}

/// Determinism: deriving twice from the same namespace and parts gives the
/// same address and nonce, or fails both times.
pub proof fn lemma_derive_deterministic(
    namespace: Seq<u8>,
    parts: Seq<Seq<u8>>,
    r1: Result<(Address, u8), DeriveError>,
    r2: Result<(Address, u8), DeriveError>,
)
    requires
        derive_result_view(r1) == derived(namespace, parts),
        derive_result_view(r2) == derived(namespace, parts),
    ensures
        derive_result_view(r1) == derive_result_view(r2),
        r1 is Ok <==> r2 is Ok,
        r1 == r2,
{
    if let (Ok((a1, n1)), Ok((a2, n2))) = (r1, r2) {
        assert(a1.bytes@ =~= a2.bytes@);
        assert(a1.bytes == a2.bytes);
    }
}

/// The leading bytes of an identifier that enter a seed: the whole
/// identifier when it is shorter than the prefix length. Identifiers that
/// agree on these bytes share an address.
pub open spec fn id_prefix(id: Seq<u8>) -> Seq<u8> {
    if id.len() <= ID_PREFIX_LEN {
        id
    } else {
        id.take(ID_PREFIX_LEN as int)
    }
}

pub fn id_seed(id: &[u8]) -> (r: Vec<u8>)
    ensures
        r@ == id_prefix(id@),
{
    let n = if id.len() <= ID_PREFIX_LEN { id.len() } else { ID_PREFIX_LEN };
    assert(id_prefix(id@) =~= id@.take(n as int));
    prefix_copy(id, n)
}

/// A fresh vector holding the first `n` bytes of `s`.
pub fn prefix_copy(s: &[u8], n: usize) -> (r: Vec<u8>)
    requires
        n <= s@.len(),
    ensures
        r@ == s@.take(n as int),
{
    let mut r: Vec<u8> = Vec::new();
    let mut i: usize = 0;
    while i < n
        invariant
            n <= s@.len(),
            i <= n,
            r@ =~= s@.take(i as int),
        decreases n - i,
    {
        r.push(s[i]);
        i += 1;
        assert(r@ =~= s@.take(i as int));
    }
    r
}

} // verus!
