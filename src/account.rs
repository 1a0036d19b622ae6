use vstd::prelude::*;

use crate::address::{same_address, Address};
use crate::pda::{create_program_address, program_address_of, seeds_view};
use crate::error::ProgramError;
use crate::meta::{zeros, ExtraAccountMeta};

verus! {

/// An account as an instruction sees it: its address, its owning program,
/// whether it signed, whether it may be written, and its data.
#[derive(Clone, Debug, PartialEq, Eq)]
pub struct AccountInfo {
    pub key: Address,
    pub owner: Address,
    pub is_signer: bool,
    pub is_writable: bool,
    pub data: Vec<u8>,
}

/// The address of the system program: all zero bytes.
pub open spec fn system_program_id() -> Seq<u8> {
    Seq::new(32, |i: int| 0u8)
}

/// Whether an address is the system program's.
pub fn is_system_program(a: &Address) -> (r: bool)
    ensures
        r == (a@ == system_program_id()),
{
    let zero = Address([0u8; 32]);
    proof {
        assert(zero@ =~= system_program_id());
    }
    crate::address::same_address(a, &zero)
}

/// Whether two account views agree on every field.
pub open spec fn same_account(a: AccountInfo, b: AccountInfo) -> bool {
    &&& a.key == b.key
    &&& a.owner == b.owner
    &&& a.is_signer == b.is_signer
    &&& a.is_writable == b.is_writable
    &&& a.data@ == b.data@
}

/// A copy of an account view, for handing to code that reads it.
pub fn copy_account(a: &AccountInfo) -> (r: AccountInfo)
    ensures
        same_account(r, *a),
{
    let data = crate::meta::copy_bytes(&a.data, 0, a.data.len());
    proof {
        assert(data@ =~= a.data@);
    }
    AccountInfo { key: a.key, owner: a.owner, is_signer: a.is_signer, is_writable: a.is_writable, data }
}

/// What the callback of a transfer sees: the program, read-only views of the
/// five fixed accounts, the amount, and the extra accounts that the
/// consuming program declared.
pub struct TransferContext<E> {
    pub program_id: Address,
    pub source_account: AccountInfo,
    pub mint: AccountInfo,
    pub destination_account: AccountInfo,
    pub authority: AccountInfo,
    pub extra_account_metas: AccountInfo,
    pub amount: u64,
    pub extra_metas: E,
}

/// The extra accounts that a consuming program's hook needs: how they are
/// declared, and how handles to them are taken from the accounts of an
/// execute instruction, after the five fixed ones.
pub trait ExtraMetas: Sized {
    fn from_accounts(accounts: &Vec<AccountInfo>) -> Result<Self, ProgramError>;

    fn to_extra_account_metas() -> Vec<ExtraAccountMeta>;
}

/// No extra accounts.
impl ExtraMetas for () {
    fn from_accounts(_accounts: &Vec<AccountInfo>) -> (r: Result<Self, ProgramError>)
        ensures
            r == Ok::<(), ProgramError>(()),
    {
        Ok(())
    }

    fn to_extra_account_metas() -> (r: Vec<ExtraAccountMeta>)
        ensures
            r@.len() == 0,
    {
        Vec::new()
    }
}

/// Whether `seeds` sign for `key` on behalf of `program_id`: they derive
/// that address under the program.
pub open spec fn signs_for(seeds: Seq<Seq<u8>>, program_id: Seq<u8>, key: Seq<u8>) -> bool {
    program_address_of(seeds, program_id) == Some(key)
}

fn check_signed(account: &AccountInfo, program_id: &Address, signer_seeds: &Vec<Vec<u8>>) -> (r: bool)
    ensures
        r == signs_for(seeds_view(signer_seeds@), program_id@, account.key@),
{
    match create_program_address(signer_seeds, program_id) {
        Some(a) => same_address(&a, &account.key),
        None => false,
    }
}

/// Gives a system-owned account with no data `space` zeroed bytes, as the
/// system program's allocate does when `program_id` signs with seeds that
/// derive the account's address; an account that has data or another owner
/// is in use.
pub fn allocate(account: &mut AccountInfo, space: usize, program_id: &Address, signer_seeds: &Vec<Vec<u8>>) -> (r: Result<(), ProgramError>)
    ensures
        !signs_for(seeds_view(signer_seeds@), program_id@, old(account).key@) ==> (r
            == Err::<(), ProgramError>(ProgramError::MissingRequiredSignature) && *final(account)
            == *old(account)),
        (signs_for(seeds_view(signer_seeds@), program_id@, old(account).key@) && !(old(
            account,
        ).data@.len() == 0 && old(account).owner@ == system_program_id())) ==> (r == Err::<
            (),
            ProgramError,
        >(ProgramError::AccountAlreadyInUse) && *final(account) == *old(account)),
        (signs_for(seeds_view(signer_seeds@), program_id@, old(account).key@) && old(
            account,
        ).data@.len() == 0 && old(account).owner@ == system_program_id()) ==> (r is Ok
            && final(account).data@ == zeros(space as nat) && final(account).key
            == old(account).key && final(account).owner == old(account).owner
            && final(account).is_signer == old(account).is_signer && final(account).is_writable
            == old(account).is_writable),
{
    if !check_signed(account, program_id, signer_seeds) {
        return Err(ProgramError::MissingRequiredSignature);
    }
    if account.data.len() != 0 || !is_system_program(&account.owner) {
        return Err(ProgramError::AccountAlreadyInUse);
    }
    resize_data(account, space);
    Ok(())
}

/// Hands an account to `owner`, as the system program's assign does when
/// `program_id` signs with seeds that derive the account's address.
pub fn assign(account: &mut AccountInfo, owner: &Address, program_id: &Address, signer_seeds: &Vec<Vec<u8>>) -> (r: Result<(), ProgramError>)
    ensures
        !signs_for(seeds_view(signer_seeds@), program_id@, old(account).key@) ==> (r
            == Err::<(), ProgramError>(ProgramError::MissingRequiredSignature) && *final(account)
            == *old(account)),
        signs_for(seeds_view(signer_seeds@), program_id@, old(account).key@) ==> (r is Ok
            && final(account).owner == *owner && final(account).key == old(account).key
            && final(account).data == old(account).data && final(account).is_signer
            == old(account).is_signer && final(account).is_writable == old(account).is_writable),
{
    if !check_signed(account, program_id, signer_seeds) {
        return Err(ProgramError::MissingRequiredSignature);
    }
    account.owner = *owner;
    Ok(())
}

/// Grows or shrinks an account's data in place; grown bytes are zero.
pub fn resize_data(account: &mut AccountInfo, new_len: usize)
    ensures
        new_len <= old(account).data@.len() ==> final(account).data@ == old(account).data@.subrange(
            0,
            new_len as int,
        ),
        new_len > old(account).data@.len() ==> final(account).data@ == old(account).data@ + zeros(
            (new_len - old(account).data@.len()) as nat,
        ),
        final(account).key == old(account).key,
        final(account).owner == old(account).owner,
        final(account).is_signer == old(account).is_signer,
        final(account).is_writable == old(account).is_writable,
{
    let ghost before = account.data@;
    if new_len <= account.data.len() {
        account.data.truncate(new_len);
    } else {
        while account.data.len() < new_len
            invariant
                before.len() <= account.data@.len() <= new_len,
                before == old(account).data@,
                account.key == old(account).key,
                account.owner == old(account).owner,
                account.is_signer == old(account).is_signer,
                account.is_writable == old(account).is_writable,
                account.data@ == before + zeros((account.data@.len() - before.len()) as nat),
            decreases new_len - account.data@.len(),
        {
            account.data.push(0u8);
            proof {
                assert(account.data@ =~= before + zeros((account.data@.len() - before.len()) as nat));
            }
        }
    }
}

} // verus!
