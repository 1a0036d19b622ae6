use vstd::prelude::*;

use crate::account::{allocate, assign, signs_for, system_program_id, AccountInfo};
use crate::address::{same_address, Address};
use crate::codec::{encode_error, init_record, record_bytes, record_size, check_encodable, size_of, lemma_record_bytes_len, record_tag};
use crate::error::ProgramError;
use crate::meta::{metas_model, zeros, ExtraAccountMeta, MetaModel};
use crate::pda::{
    collect_extra_account_metas_signer_seeds, get_extra_account_metas_address_and_bump_seed,
    lemma_found_bump_derives, record_address, record_seeds, with_bump,
};
use crate::token::{mint_authority_of, read_mint_authority};

verus! {

/// The number of accounts of an initialize instruction: validation record,
/// mint, mint authority and system program.
pub const INITIALIZE_ACCOUNTS: usize = 4;

/// Whether `authority` may act for the mint: the mint has an authority, the
/// account signed, and it is that authority.
pub open spec fn authority_check(mint: AccountInfo, authority: AccountInfo) -> Result<(), ProgramError> {
    authority_result(mint_authority_of(mint.data@), authority)
}

/// What a read mint authority decides for `authority`: unreadable mint data
/// is invalid, a mint without authority cannot act, and otherwise the
/// account must have signed and be that authority.
pub open spec fn authority_result(mint_authority: Option<Option<Seq<u8>>>, authority: AccountInfo) -> Result<(), ProgramError> {
    match mint_authority {
        None => Err(ProgramError::InvalidAccountData),
        Some(None) => Err(ProgramError::MintHasNoMintAuthority),
        Some(Some(k)) => if !authority.is_signer {
            Err(ProgramError::MissingRequiredSignature)
        } else if authority.key@ != k {
            Err(ProgramError::IncorrectMintAuthority)
        } else {
            Ok(())
        },
    }
}

/// Whether `record` is the validation record derived from `mint`.
pub open spec fn record_matches(program_id: Seq<u8>, mint: AccountInfo, record: AccountInfo) -> bool {
    record_address(mint.key@, program_id) matches Some((a, _)) && a == record.key@
}

/// The checks of an initialize instruction, in order.
pub open spec fn initialize_check(program_id: Seq<u8>, accounts: Seq<AccountInfo>, ms: Seq<MetaModel>) -> Result<(), ProgramError> {
    if accounts.len() < INITIALIZE_ACCOUNTS {
        Err(ProgramError::NotEnoughAccountKeys)
    } else if authority_check(accounts[1], accounts[2]) is Err {
        authority_check(accounts[1], accounts[2])
    } else if !record_matches(program_id, accounts[1], accounts[0]) {
        Err(ProgramError::InvalidSeeds)
    } else if record_size(ms.len() as int) > usize::MAX {
        Err(ProgramError::ArithmeticOverflow)
    } else if encode_error(ms) is Some {
        Err(encode_error(ms)->0)
    } else if !(accounts[0].data@.len() == 0 && accounts[0].owner@ == system_program_id()) {
        Err(ProgramError::AccountAlreadyInUse)
    } else {
        Ok(())
    }
}

/// Whether `new` is `old` holding the record of `ms`, owned by the program.
pub open spec fn holds_new_record(old: AccountInfo, new: AccountInfo, program_id: Seq<u8>, ms: Seq<MetaModel>) -> bool {
    &&& new.key == old.key
    &&& new.is_signer == old.is_signer
    &&& new.is_writable == old.is_writable
    &&& new.owner@ == program_id
    &&& new.data@ == record_bytes(ms)
}

/// Whether the record's own seeds and bump, which sign its allocation and
/// assignment, derive the record's address under the program.
pub open spec fn signed_with_record_seeds(program_id: Seq<u8>, mint: AccountInfo, record: AccountInfo) -> bool {
    record_address(mint.key@, program_id) matches Some((_, bump)) && signs_for(
        with_bump(record_seeds(mint.key@), bump),
        program_id,
        record.key@,
    )
}

/// What an initialize instruction does with the accounts: fail and leave
/// them, or give the first the record of `ms` and leave the others.
pub open spec fn initialize_post(
    program_id: Seq<u8>,
    old: Seq<AccountInfo>,
    new: Seq<AccountInfo>,
    ms: Seq<MetaModel>,
    r: Result<(), ProgramError>,
) -> bool {
    match initialize_check(program_id, old, ms) {
        Err(e) => r == Err::<(), ProgramError>(e) && new == old,
        Ok(()) => {
            &&& r is Ok
            &&& new.len() == old.len()
            &&& forall|j: int| 1 <= j < old.len() ==> new[j] == old[j]
            &&& holds_new_record(old[0], new[0], program_id, ms)
            &&& signed_with_record_seeds(program_id, old[1], old[0])
        },
    }
}

/// Lets `authority_info` act for the mint only where it signed and is the
/// mint's authority.
pub fn check_mint_authority(mint_info: &AccountInfo, authority_info: &AccountInfo) -> (r: Result<(), ProgramError>)
    ensures
        r == authority_check(*mint_info, *authority_info),
{
    authority_decision(read_mint_authority(&mint_info.data), authority_info)
}

/// Decides whether `authority_info` may act for a mint, from the mint's
/// authority as read.
pub fn authority_decision(mint_authority: Option<Option<Address>>, authority_info: &AccountInfo) -> (r: Result<(), ProgramError>)
    ensures
        r == authority_result(
            match mint_authority {
                None => None,
                Some(None) => Some(None),
                Some(Some(a)) => Some(Some(a@)),
            },
            *authority_info,
        ),
{
    let mint_authority = match mint_authority {
        None => return Err(ProgramError::InvalidAccountData),
        Some(None) => return Err(ProgramError::MintHasNoMintAuthority),
        Some(Some(k)) => k,
    };
    if !authority_info.is_signer {
        return Err(ProgramError::MissingRequiredSignature);
    }
    if !same_address(&authority_info.key, &mint_authority) {
        return Err(ProgramError::IncorrectMintAuthority);
    }
    Ok(())
}

/// Creates the validation record of a mint: checks the authority and the
/// derived address, allocates the account to the record's size, hands it to
/// the program, and writes the declared metas.
pub fn process_initialize_extra_account_meta_list(
    program_id: &Address,
    accounts: &mut Vec<AccountInfo>,
    extra_account_metas: &Vec<ExtraAccountMeta>,
) -> (r: Result<(), ProgramError>)
    ensures
        initialize_post(program_id@, old(accounts)@, final(accounts)@, metas_model(extra_account_metas@), r),
{
    let ghost ms = metas_model(extra_account_metas@);
    if accounts.len() < INITIALIZE_ACCOUNTS {
        return Err(ProgramError::NotEnoughAccountKeys);
    }
    if let Err(e) = check_mint_authority(&accounts[1], &accounts[2]) {
        return Err(e);
    }
    let bump_seed = match get_extra_account_metas_address_and_bump_seed(&accounts[1].key, program_id) {
        Some((expected, bump)) => {
            if !same_address(&expected, &accounts[0].key) {
                return Err(ProgramError::InvalidSeeds);
            }
            bump
        },
        None => return Err(ProgramError::InvalidSeeds),
    };
    proof {
        lemma_found_bump_derives(record_seeds(accounts@[1].key@), program_id@, 255);
    }
    let signer_seeds = collect_extra_account_metas_signer_seeds(&accounts[1].key, bump_seed);
    let account_size = match size_of(extra_account_metas.len()) {
        Ok(s) => s,
        Err(e) => return Err(e),
    };
    if let Some(e) = check_encodable(extra_account_metas) {
        return Err(e);
    }
    if accounts[0].data.len() != 0 || !crate::account::is_system_program(&accounts[0].owner) {
        return Err(ProgramError::AccountAlreadyInUse);
    }
    // Every failure of the allocation and the write was ruled out above, so
    // from here on the record is created and nothing can fail.
    let ghost old_accounts = accounts@;
    let mut record = accounts.remove(0);
    let _ = allocate(&mut record, account_size, program_id, &signer_seeds);
    let _ = assign(&mut record, program_id, program_id, &signer_seeds);
    proof {
        lemma_record_bytes_len(ms);
        assert(record.data@.subrange(0, 8) != record_tag()) by {
            assert(record.data@.subrange(0, 8)[0] == 0u8);
        }
        assert(record_bytes(ms) + zeros(0) =~= record_bytes(ms));
    }
    let _ = init_record(&mut record.data, extra_account_metas);
    accounts.insert(0, record);
    proof {
        assert(accounts@ =~= old_accounts.update(0, record));
    }
    Ok(())
}

/// Creating a record never succeeds unless the authority signed and is the
/// mint's authority: an unsigned authority is refused for its missing
/// signature, a signed but different one as incorrect.
pub proof fn lemma_initialize_needs_authority(program_id: Seq<u8>, accounts: Seq<AccountInfo>, ms: Seq<MetaModel>)
    requires
        accounts.len() >= INITIALIZE_ACCOUNTS,
    ensures
        authority_check(accounts[1], accounts[2]) is Err ==> initialize_check(program_id, accounts, ms)
            == authority_check(accounts[1], accounts[2]),
        (mint_authority_of(accounts[1].data@) matches Some(Some(_)) && !accounts[2].is_signer)
            ==> initialize_check(program_id, accounts, ms) == Err::<(), ProgramError>(
            ProgramError::MissingRequiredSignature,
        ),
        (mint_authority_of(accounts[1].data@) matches Some(Some(k)) && accounts[2].is_signer
            && accounts[2].key@ != k) ==> initialize_check(program_id, accounts, ms) == Err::<
            (),
            ProgramError,
        >(ProgramError::IncorrectMintAuthority),
{
}

} // verus!
