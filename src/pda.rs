use vstd::prelude::*;

use crate::address::Address;

verus! {

/// The address that the runtime derives from `seeds` under `program_id`, or
/// `None` where the hash lands on a signing key or the seeds are too long.
pub uninterp spec fn program_address_of(seeds: Seq<Seq<u8>>, program_id: Seq<u8>) -> Option<Seq<u8>>;

/// The most seeds that one derivation takes.
pub const MAX_SEEDS: usize = 16;

/// The longest seed in bytes.
pub const MAX_SEED_LEN: usize = 32;

/// The seeds as byte sequences.
pub open spec fn seeds_view(seeds: Seq<Vec<u8>>) -> Seq<Seq<u8>> {
    seeds.map_values(|s: Vec<u8>| s@)
}

/// Relies on `Pubkey::create_program_address`: a hash of the seeds and the
/// program id, refused where it is a valid curve point, and refused where
/// there are more than sixteen seeds or a seed longer than thirty-two bytes.
#[verifier::external_body]
pub(crate) fn create_program_address(seeds: &Vec<Vec<u8>>, program_id: &Address) -> (r: Option<Address>)
    ensures
        r matches Some(a) ==> program_address_of(seeds_view(seeds@), program_id@) == Some(a@),
        r is None ==> program_address_of(seeds_view(seeds@), program_id@) is None,
        seeds@.len() > MAX_SEEDS ==> r is None,
        (exists|i: int| 0 <= i < seeds@.len() && seeds@[i]@.len() > MAX_SEED_LEN) ==> r is None,
{
    let refs: Vec<&[u8]> = seeds.iter().map(|s| s.as_slice()).collect();
    let program = solana_program::pubkey::Pubkey::new_from_array(program_id.0);
    solana_program::pubkey::Pubkey::create_program_address(&refs, &program).ok().map(
        |p| Address(p.to_bytes()),
    )
}

/// The seeds followed by the one-byte bump.
pub open spec fn with_bump(seeds: Seq<Seq<u8>>, bump: u8) -> Seq<Seq<u8>> {
    seeds.push(seq![bump])
}

/// The first bump, searching from `bump` down to zero, for which the seeds
/// give an address, together with that address.
pub open spec fn search_from(seeds: Seq<Seq<u8>>, program_id: Seq<u8>, bump: int) -> Option<(Seq<u8>, u8)>
    decreases bump + 1,
{
    if bump < 0 || bump > 255 {
        None
    } else if let Some(a) = program_address_of(with_bump(seeds, bump as u8), program_id) {
        Some((a, bump as u8))
    } else {
        search_from(seeds, program_id, bump - 1)
    }
}

/// The program-derived address of `seeds` under `program_id` and its bump:
/// the first bump from 255 downward that gives an address.
pub open spec fn derived_address(seeds: Seq<Seq<u8>>, program_id: Seq<u8>) -> Option<(Seq<u8>, u8)> {
    search_from(seeds, program_id, 255)
}

/// Searches the bumps from 255 down to zero for the first that gives an
/// address; `None` where none does.
pub fn find_program_address(seeds: &Vec<Vec<u8>>, program_id: &Address) -> (r: Option<(Address, u8)>)
    ensures
        match derived_address(seeds_view(seeds@), program_id@) {
            Some((a, b)) => r matches Some((ra, rb)) && ra@ == a && rb == b,
            None => r is None,
        },
{
    let ghost sv = seeds_view(seeds@);
    let mut bump: u16 = 256;
    while bump > 0
        invariant
            bump <= 256,
            sv == seeds_view(seeds@),
            search_from(sv, program_id@, 255) == search_from(sv, program_id@, bump - 1),
        decreases bump,
    {
        bump = bump - 1;
        let b = bump as u8;
        let mut with: Vec<Vec<u8>> = seeds.clone();
        let mut last: Vec<u8> = Vec::new();
        last.push(b);
        with.push(last);
        proof {
            assert(seeds_view(with@) =~= with_bump(sv, b));
        }
        match create_program_address(&with, program_id) {
            Some(a) => {
                return Some((a, b));
            },
            None => {},
        }
        proof {
            assert(search_from(sv, program_id@, bump as int) == search_from(sv, program_id@, bump - 1));
        }
    }
    None
}

/// The search's answer is what its bump gives: the seeds with that bump
/// derive the address found.
pub proof fn lemma_found_bump_derives(seeds: Seq<Seq<u8>>, program_id: Seq<u8>, bump: int)
    requires
        search_from(seeds, program_id, bump) is Some,
    ensures
        ({
            let (a, b) = search_from(seeds, program_id, bump)->0;
            program_address_of(with_bump(seeds, b), program_id) == Some(a)
        }),
    decreases bump + 1,
{
    if 0 <= bump <= 255 && program_address_of(with_bump(seeds, bump as u8), program_id) is None {
        lemma_found_bump_derives(seeds, program_id, bump - 1);
    }
}

/// Whether `candidate` is the program-derived address of `seeds` under
/// `program_id`.
pub fn verify_program_address(candidate: &Address, seeds: &Vec<Vec<u8>>, program_id: &Address) -> (r: bool)
    ensures
        r == (derived_address(seeds_view(seeds@), program_id@) matches Some((a, _)) && a == candidate@),
{
    match find_program_address(seeds, program_id) {
        Some((a, _)) => crate::address::same_address(&a, candidate),
        None => false,
    }
}

/// The tag that starts the seeds of a validation record: the bytes of
/// `extra-account-metas`.
pub open spec fn record_seed_tag() -> Seq<u8> {
    seq![101u8, 120, 116, 114, 97, 45, 97, 99, 99, 111, 117, 110, 116, 45, 109, 101, 116, 97, 115]
}

/// The seeds of the validation record of `mint`: the tag, then the mint.
pub open spec fn record_seeds(mint: Seq<u8>) -> Seq<Seq<u8>> {
    seq![record_seed_tag(), mint]
}

/// The address and bump of the validation record of `mint` under
/// `program_id`.
pub open spec fn record_address(mint: Seq<u8>, program_id: Seq<u8>) -> Option<(Seq<u8>, u8)> {
    derived_address(record_seeds(mint), program_id)
}

/// Builds the seeds of the validation record of `mint`.
pub fn collect_record_seeds(mint: &Address) -> (r: Vec<Vec<u8>>)
    ensures
        seeds_view(r@) == record_seeds(mint@),
{
    let tag: Vec<u8> = vec![101u8, 120, 116, 114, 97, 45, 97, 99, 99, 111, 117, 110, 116, 45, 109, 101, 116, 97, 115];
    let key: Vec<u8> = mint.to_vec();
    let r: Vec<Vec<u8>> = vec![tag, key];
    proof {
        assert(r@[0]@ =~= record_seed_tag());
        assert(r@[1]@ =~= mint@);
        assert(seeds_view(r@) =~= record_seeds(mint@));
    }
    r
}

/// The address and bump of the validation record of `mint` under
/// `program_id`; `None` where no bump gives one.
pub fn get_extra_account_metas_address_and_bump_seed(mint: &Address, program_id: &Address) -> (r: Option<(Address, u8)>)
    ensures
        match record_address(mint@, program_id@) {
            Some((a, b)) => r matches Some((ra, rb)) && ra@ == a && rb == b,
            None => r is None,
        },
{
    let seeds = collect_record_seeds(mint);
    find_program_address(&seeds, program_id)
}

/// The seeds that sign for the validation record of `mint`: its seeds, then
/// the bump.
pub fn collect_extra_account_metas_signer_seeds(mint: &Address, bump: u8) -> (r: Vec<Vec<u8>>)
    ensures
        seeds_view(r@) == with_bump(record_seeds(mint@), bump),
{
    let mut r = collect_record_seeds(mint);
    let ghost before = r@;
    let mut last: Vec<u8> = Vec::new();
    last.push(bump);
    r.push(last);
    proof {
        assert(seeds_view(r@) =~= with_bump(record_seeds(mint@), bump));
    }
    r
}

/// Whether `candidate` is the validation-record address of `mint` under
/// `program_id`.
pub fn is_record_address(candidate: &Address, mint: &Address, program_id: &Address) -> (r: bool)
    ensures
        r == (record_address(mint@, program_id@) matches Some((a, _)) && a == candidate@),
{
    let seeds = collect_record_seeds(mint);
    verify_program_address(candidate, &seeds, program_id)
}

/// Derivation gives one address per mint and program, and the check accepts
/// a candidate exactly when it is that address; so no two candidates pass.
pub proof fn lemma_record_address_check_exact(mint: Seq<u8>, program_id: Seq<u8>, candidate: Seq<u8>)
    ensures
        (record_address(mint, program_id) matches Some((a, _)) && a == candidate) <==> (record_address(
            mint,
            program_id,
        ) is Some && candidate == (record_address(mint, program_id)->0).0),
{
}

} // verus!
