//! Program-derived addresses of the bridge's records, and the identities of
//! the programs that the bridge calls.
use vstd::prelude::*;

verus! {

/// The address and bump that the host derives for the seeds `prefix`, `seed`
/// under `program_id`, if any.
pub uninterp spec fn program_address(prefix: Seq<u8>, seed: Seq<u8>, program_id: Seq<u8>) -> Option<
    (Seq<u8>, u8),
>;

/// Relies on `Pubkey::try_find_program_address`: the first bump, from 255 down,
/// whose address is off the curve, with that address; a function of the seeds
/// and the program identity alone.
#[verifier::external_body]
fn find_program_address(prefix: &[u8], seed: &[u8], program_id: &[u8; 32]) -> (r: Option<
    ([u8; 32], u8),
>)
    ensures
        r matches Some((a, b)) ==> program_address(prefix@, seed@, program_id@) == Some((a@, b)),
        r is None ==> program_address(prefix@, seed@, program_id@) is None,
{
    let program = solana_program::pubkey::Pubkey::new_from_array(*program_id);
    match solana_program::pubkey::Pubkey::try_find_program_address(&[prefix, seed], &program) {
        Some((address, bump)) => Some((address.to_bytes(), bump)),
        None => None,
    }
}

/// The three records of the bridge, each at an address derived from its own seed.
#[derive(Clone, Copy, Debug, PartialEq, Eq, Structural)]
pub enum Seed {
    /// The ledger record.
    Init,
    /// The mint-event log.
    Mint,
    /// The burn-event log.
    Burn,
}

/// `"Locker"`, the first seed of every record.
pub open spec fn locker_prefix() -> Seq<u8> {
    seq![76u8, 111u8, 99u8, 107u8, 101u8, 114u8]
}

impl Seed {
    /// `"Init"`, `"Mint"` or `"Burn"`.
    pub open spec fn spec_bytes(self) -> Seq<u8> {
        match self {
            Seed::Init => seq![73u8, 110u8, 105u8, 116u8],
            Seed::Mint => seq![77u8, 105u8, 110u8, 116u8],
            Seed::Burn => seq![66u8, 117u8, 114u8, 110u8],
        }
    }

    /// The second seed of this record.
    pub fn bytes(&self) -> (r: Vec<u8>)
        ensures
            r@ == self.spec_bytes(),
    {
        match self {
            Seed::Init => vec![73u8, 110u8, 105u8, 116u8],
            Seed::Mint => vec![77u8, 105u8, 110u8, 116u8],
            Seed::Burn => vec![66u8, 117u8, 114u8, 110u8],
        }
    }
}

/// The first seed of every record.
pub fn locker_prefix_bytes() -> (r: Vec<u8>)
    ensures
        r@ == locker_prefix(),
{
    vec![76u8, 111u8, 99u8, 107u8, 101u8, 114u8]
}

/// The address and bump of the record `seed` of the program `program_id`.
pub open spec fn derived(program_id: Seq<u8>, seed: Seed) -> Option<(Seq<u8>, u8)> {
    program_address(locker_prefix(), seed.spec_bytes(), program_id)
}

/// Derives the address and bump of the record `seed` of the program `program_id`.
pub fn derive_address(program_id: &[u8; 32], seed: Seed) -> (r: Option<([u8; 32], u8)>)
    ensures
        r matches Some((a, b)) ==> derived(program_id@, seed) == Some((a@, b)),
        r is None ==> derived(program_id@, seed) is None,
{
    let prefix = locker_prefix_bytes();
    let seed_bytes = seed.bytes();
    find_program_address(prefix.as_slice(), seed_bytes.as_slice(), program_id)
}

/// The identity of the host's system program: 32 zero bytes.
pub open spec fn spec_system_program_id() -> Seq<u8> {
    Seq::new(32, |i: int| 0u8)
}

/// The identity of the token program that mints and burns the wrapped asset.
pub open spec fn spec_token_program_id() -> Seq<u8> {
    seq![
        6u8, 221u8, 246u8, 225u8, 215u8, 101u8, 161u8, 147u8, 217u8, 203u8, 225u8, 70u8, 206u8,
        235u8, 121u8, 172u8, 28u8, 180u8, 133u8, 237u8, 95u8, 91u8, 55u8, 145u8, 58u8, 140u8,
        245u8, 133u8, 126u8, 255u8, 0u8, 169u8,
    ]
}

/// The identity of the host's system program.
pub fn system_program_id() -> (r: [u8; 32])
    ensures
        r@ == spec_system_program_id(),
{
    let r = [0u8; 32];
    assert(r@ =~= spec_system_program_id());
    r
}

/// The identity of the token program.
pub fn token_program_id() -> (r: [u8; 32])
    ensures
        r@ == spec_token_program_id(),
{
    let r = [
        6u8, 221u8, 246u8, 225u8, 215u8, 101u8, 161u8, 147u8, 217u8, 203u8, 225u8, 70u8, 206u8,
        235u8, 121u8, 172u8, 28u8, 180u8, 133u8, 237u8, 95u8, 91u8, 55u8, 145u8, 58u8, 140u8,
        245u8, 133u8, 126u8, 255u8, 0u8, 169u8,
    ];
    assert(r@ =~= spec_token_program_id());
    r
}

/// Whether two identities are the same.
pub fn same_key(a: &[u8; 32], b: &[u8; 32]) -> (r: bool)
    ensures
        r == (a@ == b@),
{
    let mut i: usize = 0;
    while i < 32
        invariant
            i <= 32,
            a@.len() == 32,
            b@.len() == 32,
            forall|j: int| 0 <= j < i ==> a@[j] == b@[j],
        decreases 32 - i,
    {
        if a[i] != b[i] {
            return false;
        }
        i = i + 1;
    }
    assert(a@ =~= b@);
    true
}

} // verus!
