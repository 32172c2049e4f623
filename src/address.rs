use vstd::prelude::*;

use anchor_lang::solana_program::pubkey::Pubkey;

verus! {

/// The program-derived address and bump seed that the address scheme finds
/// for `seeds` under `program_id`, or `None` where no bump seed gives one.
pub uninterp spec fn program_address(seeds: Seq<Seq<u8>>, program_id: Seq<u8>) -> Option<(Seq<u8>, u8)>;

/// The addresses of a derivation result, as byte sequences.
pub open spec fn found_view(r: Option<([u8; 32], u8)>) -> Option<(Seq<u8>, u8)> {
    match r {
        Some((a, b)) => Some((a@, b)),
        None => None,
    }
}

/// The bytes of a list of seeds.
pub open spec fn seeds_view(seeds: Seq<Vec<u8>>) -> Seq<Seq<u8>> {
    seeds.map_values(|s: Vec<u8>| s@)
}

/// Relies on `Pubkey::try_find_program_address`: it hashes the seeds, a bump
/// seed and the program id, searching the bump seed down from 255 for a result
/// off the ed25519 curve. The result depends on seeds and program id alone,
/// and it returns `None` rather than panicking where no bump seed fits or a
/// seed is too long.
#[verifier::external_body]
fn find_program_address(seeds: &Vec<Vec<u8>>, program_id: &[u8; 32]) -> (r: Option<([u8; 32], u8)>)
    ensures
        found_view(r) == program_address(seeds_view(seeds@), program_id@),
{
    let refs: Vec<&[u8]> = seeds.iter().map(Vec::as_slice).collect();
    let program = Pubkey::new_from_array(*program_id);
    match Pubkey::try_find_program_address(&refs, &program) {
        Some((key, bump)) => Some((key.to_bytes(), bump)),
        None => None,
    }
}

/// The tag that opens the seeds of every batch record: the bytes of "event".
pub open spec fn event_tag() -> Seq<u8> {
    seq![101u8, 118u8, 101u8, 110u8, 116u8]
}

/// Little-endian bytes of `n`.
pub open spec fn le_bytes(n: u64) -> Seq<u8> {
    Seq::new(8, |i: int| ((n >> (8 * i) as u64) & 0xff) as u8)
}

/// Seeds of the batch record of `issuer` and `nonce`.
pub open spec fn event_seeds(issuer: Seq<u8>, nonce: u64) -> Seq<Seq<u8>> {
    seq![event_tag(), issuer, le_bytes(nonce)]
}

/// Address and bump seed of the batch record of `issuer` and `nonce`.
pub open spec fn event_address_of(program_id: Seq<u8>, issuer: Seq<u8>, nonce: u64) -> Option<(Seq<u8>, u8)> {
    program_address(event_seeds(issuer, nonce), program_id)
}

fn le_bytes_of(n: u64) -> (r: Vec<u8>)
    ensures
        r@ == le_bytes(n),
{
    let mut r: Vec<u8> = Vec::new();
    let mut i: u64 = 0;
    while i < 8
        invariant
            i <= 8,
            r@ =~= le_bytes(n).take(i as int),
        decreases 8 - i,
    {
        r.push(((n >> (8 * i)) & 0xff) as u8);
        i = i + 1;
    }
    r
}

/// Address and bump seed of the batch record of `issuer` and `nonce` under
/// `program_id`.
pub fn event_address(program_id: &[u8; 32], issuer: &[u8; 32], nonce: u64) -> (r: Option<([u8; 32], u8)>)
    ensures
        found_view(r) == event_address_of(program_id@, issuer@, nonce),
{
    let tag: Vec<u8> = vec![101u8, 118u8, 101u8, 110u8, 116u8];
    let mut key: Vec<u8> = Vec::new();
    let mut i: usize = 0;
    while i < 32
        invariant
            i <= 32,
            key@ =~= issuer@.take(i as int),
        decreases 32 - i,
    {
        key.push(issuer[i]);
        i = i + 1;
    }
    assert(key@ =~= issuer@);
    assert(tag@ =~= event_tag());
    let seeds: Vec<Vec<u8>> = vec![tag, key, le_bytes_of(nonce)];
    assert(seeds_view(seeds@) =~= event_seeds(issuer@, nonce));
    find_program_address(&seeds, program_id)
}

} // verus!
