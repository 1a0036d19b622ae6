use vstd::prelude::*;

use crate::address::{Address, ADDRESS_LEN};

verus! {

/// The bytes that a base-58 string stands for, or `None` where it holds a
/// character outside the alphabet.
pub uninterp spec fn base58_decoded(s: Seq<char>) -> Option<Seq<u8>>;

/// Relies on `bs58::decode(..).into_vec()`: decodes a base-58 string.
#[verifier::external_body]
fn decode_base58(s: &str) -> (r: Option<Vec<u8>>)
    ensures
        match base58_decoded(s@) {
            Some(b) => r matches Some(v) && v@ == b,
            None => r is None,
        },
{
    bs58::decode(s).into_vec().ok()
}

/// Why a declared address does not read.
#[derive(Clone, Copy, Debug, PartialEq, Eq, Structural)]
pub enum IdError {
    /// The string is not base 58.
    InvalidBase58,
    /// The decoded bytes are not 32; their number is given.
    WrongLength(usize),
}

/// The address that 32 decoded bytes make; any other number is refused.
pub fn pubkey_from_bytes(bytes: &Vec<u8>) -> (r: Result<Address, IdError>)
    ensures
        bytes@.len() == ADDRESS_LEN ==> (r matches Ok(a) && a@ == bytes@),
        bytes@.len() != ADDRESS_LEN ==> r == Err::<Address, IdError>(IdError::WrongLength(bytes@.len() as usize)),
{
    if bytes.len() != ADDRESS_LEN {
        return Err(IdError::WrongLength(bytes.len()));
    }
    let mut out = [0u8; 32];
    let mut i: usize = 0;
    while i < ADDRESS_LEN
        invariant
            i <= ADDRESS_LEN,
            bytes@.len() == ADDRESS_LEN,
            out@.len() == ADDRESS_LEN,
            forall|j: int| 0 <= j < i ==> out@[j] == bytes@[j],
        decreases ADDRESS_LEN - i,
    {
        out[i] = bytes[i];
        i = i + 1;
    }
    let a = Address(out);
    proof {
        assert(a@ =~= bytes@);
    }
    Ok(a)
}

/// The address that a declared base-58 string names.
pub fn parse_pubkey(s: &str) -> (r: Result<Address, IdError>)
    ensures
        match base58_decoded(s@) {
            None => r == Err::<Address, IdError>(IdError::InvalidBase58),
            Some(b) => if b.len() == ADDRESS_LEN {
                r matches Ok(a) && a@ == b
            } else {
                r == Err::<Address, IdError>(IdError::WrongLength(b.len() as usize))
            },
        },
{
    match decode_base58(s) {
        None => Err(IdError::InvalidBase58),
        Some(bytes) => pubkey_from_bytes(&bytes),
    }
}

} // verus!
