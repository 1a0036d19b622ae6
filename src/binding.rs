use vstd::prelude::*;

use crate::account::AccountInfo;
use crate::address::Address;
use crate::error::ProgramError;
use crate::meta::{seeds_model, ExtraAccountMeta, MetaModel, Seed};
use crate::resolve::FIXED_ACCOUNTS;

verus! {

/// Why a field's extra-account declaration cannot stand.
#[derive(Clone, Copy, Debug, PartialEq, Eq, Structural)]
pub enum MetaDeclarationError {
    /// Both a literal address and seeds were given.
    BothPubkeyAndSeeds,
    /// Neither a literal address nor seeds was given.
    NeitherPubkeyNorSeeds,
}

/// The meta that one field's declaration stands for: its literal address, or
/// the address derived from its seeds under the program at index zero.
pub fn meta_from_declaration(
    pubkey: Option<Address>,
    seeds: Option<Vec<Seed>>,
    signer: bool,
    writable: bool,
) -> (r: Result<ExtraAccountMeta, MetaDeclarationError>)
    ensures
        pubkey is Some && seeds is Some ==> r == Err::<ExtraAccountMeta, MetaDeclarationError>(
            MetaDeclarationError::BothPubkeyAndSeeds,
        ),
        pubkey is None && seeds is None ==> r == Err::<ExtraAccountMeta, MetaDeclarationError>(
            MetaDeclarationError::NeitherPubkeyNorSeeds,
        ),
        (pubkey is Some && seeds is None) ==> (r matches Ok(m) && m@ == (MetaModel::Fixed {
            address: pubkey->0@,
            is_signer: signer,
            is_writable: writable,
        })),
        (pubkey is None && seeds is Some) ==> (r matches Ok(m) && m@ == (MetaModel::Derived {
            program_index: 0,
            seeds: seeds_model(seeds->0@),
            is_signer: signer,
            is_writable: writable,
        })),
{
    match (pubkey, seeds) {
        (Some(_), Some(_)) => Err(MetaDeclarationError::BothPubkeyAndSeeds),
        (None, None) => Err(MetaDeclarationError::NeitherPubkeyNorSeeds),
        (Some(address), None) => Ok(
            ExtraAccountMeta::FixedAddress { address, is_signer: signer, is_writable: writable },
        ),
        (None, Some(seeds)) => Ok(
            ExtraAccountMeta::SeedDerived {
                program_index: 0,
                seeds,
                is_signer: signer,
                is_writable: writable,
            },
        ),
    }
}

/// The `index`-th extra account of an execute instruction: the account that
/// follows the five fixed ones by `index`.
pub fn extra_account(accounts: &Vec<AccountInfo>, index: usize) -> (r: Result<&AccountInfo, ProgramError>)
    ensures
        FIXED_ACCOUNTS + index < accounts@.len() ==> (r matches Ok(a) && *a
            == accounts@[FIXED_ACCOUNTS + index]),
        FIXED_ACCOUNTS + index >= accounts@.len() ==> r == Err::<&AccountInfo, ProgramError>(
            ProgramError::NotEnoughAccountKeys,
        ),
{
    if accounts.len() <= FIXED_ACCOUNTS || index >= accounts.len() - FIXED_ACCOUNTS {
        return Err(ProgramError::NotEnoughAccountKeys);
    }
    Ok(&accounts[FIXED_ACCOUNTS + index])
}

} // verus!
