use vstd::prelude::*;

use crate::address::Address;
use spl_token_2022::extension::BaseStateWithExtensions;

verus! {

/// The transfer flag that the transfer-hook extension of a token account
/// holds: `None` where the data is not an initialized token account,
/// `Some(None)` where it has no readable transfer-hook extension.
pub uninterp spec fn transferring_flag_of(data: Seq<u8>) -> Option<Option<bool>>;

/// The mint authority of a mint: `None` where the data is not an initialized
/// mint, `Some(None)` where the mint has no authority.
pub uninterp spec fn mint_authority_of(data: Seq<u8>) -> Option<Option<Seq<u8>>>;

/// Relies on `StateWithExtensions::<Account>::unpack` and its
/// `get_extension::<TransferHookAccount>` to read the transfer flag of a
/// token account.
#[verifier::external_body]
pub(crate) fn read_transferring_flag(data: &Vec<u8>) -> (r: Option<Option<bool>>)
    ensures
        r == transferring_flag_of(data@),
{
    let state = spl_token_2022::extension::StateWithExtensions::<spl_token_2022::state::Account>::unpack(data).ok()?;
    let ext = state.get_extension::<spl_token_2022::extension::transfer_hook::TransferHookAccount>().ok();
    Some(ext.map(|e| bool::from(e.transferring)))
}

/// Relies on `StateWithExtensions::<Mint>::unpack` to read the mint
/// authority of a mint.
#[verifier::external_body]
pub(crate) fn read_mint_authority(data: &Vec<u8>) -> (r: Option<Option<Address>>)
    ensures
        match mint_authority_of(data@) {
            None => r is None,
            Some(None) => r == Some(None::<Address>),
            Some(Some(k)) => r matches Some(Some(a)) && a@ == k,
        },
{
    let state = spl_token_2022::extension::StateWithExtensions::<spl_token_2022::state::Mint>::unpack(data).ok()?;
    Some(Option::<solana_program::pubkey::Pubkey>::from(state.base.mint_authority).map(|k| Address(k.to_bytes())))
}

} // verus!
